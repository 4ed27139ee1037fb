use vstd::prelude::*;
use vstd::string::StringExecFns;

use crate::strutil::{
    find_char, is_space, is_space_char, lemma_find_char_from_scan, lemma_find_char_spec,
    lemma_trim_range, trim,
};

verus! {

/// The two origin candidates for one configured domain.
pub open spec fn origin_entries(domain: Seq<char>) -> Seq<Seq<char>> {
    seq!["http://"@ + domain, "https://"@ + domain]
}

/// The origin candidates of a comma-separated domain list: each entry is
/// trimmed and contributes its http and https forms, in order.
pub open spec fn allowed_origins_spec(s: Seq<char>) -> Seq<Seq<char>>
    decreases s.len(),
    via allowed_origins_decreases
{
    match find_char(s, ',') {
        None => origin_entries(trim(s)),
        Some(i) => origin_entries(trim(s.subrange(0, i))) + allowed_origins_spec(
            s.subrange(i + 1, s.len() as int),
        ),
    }
}

#[via_fn]
proof fn allowed_origins_decreases(s: Seq<char>) {
    lemma_find_char_spec(s, ',');
}

/// Compute the cross-origin allow-list for a configured domain list: for
/// each comma-separated, trimmed domain, its http and https origins, in
/// order. Whether an entry parses as a usable origin is left to the
/// transport layer.
#[verifier::loop_isolation(false)]
pub fn allowed_origins(allow_origin: &str) -> (r: Vec<String>)
    ensures
        r.deep_view() == allowed_origins_spec(allow_origin@),
{
    let ghost s = allow_origin@;
    let n = allow_origin.unicode_len();
    let mut out: Vec<String> = Vec::new();
    proof {
        assert(s.subrange(0, n as int) =~= s);
        assert(out.deep_view() + allowed_origins_spec(s) =~~= allowed_origins_spec(s));
    }
    let mut pos: usize = 0;
    loop
        invariant
            0 <= pos <= n,
            allowed_origins_spec(s) == out.deep_view() + allowed_origins_spec(
                s.subrange(pos as int, n as int),
            ),
        decreases n - pos,
    {
        let ghost rem = s.subrange(pos as int, n as int);
        // Find the end of the current entry.
        let mut end: usize = pos;
        while end < n && allow_origin.get_char(end) != ','
            invariant
                pos <= end <= n,
                forall|j: int| pos <= j < end ==> s[j] != ',',
            decreases n - end,
        {
            end += 1;
        }
        proof {
            assert forall|j: int| 0 <= j < end - pos implies rem[j] != ',' by {
                assert(rem[j] == s[pos + j]);
            }
            if (end as int) < n as int {
                assert(rem[end - pos] == s[end as int]);
            }
            lemma_find_char_from_scan(rem, ',', end - pos);
        }
        // Trim whitespace from both edges of the entry.
        let mut ts: usize = pos;
        while ts < end && is_space_char(allow_origin.get_char(ts))
            invariant
                pos <= ts <= end,
                forall|j: int| pos <= j < ts ==> is_space(s[j]),
            decreases end - ts,
        {
            ts += 1;
        }
        let mut te: usize = end;
        while te > ts && is_space_char(allow_origin.get_char(te - 1))
            invariant
                ts <= te <= end,
                forall|j: int| te <= j < end ==> is_space(s[j]),
            decreases te,
        {
            te -= 1;
        }
        let ghost seg = s.subrange(pos as int, end as int);
        proof {
            assert(seg =~= rem.subrange(0, end - pos));
            assert forall|j: int| 0 <= j < ts - pos implies is_space(seg[j]) by {
                assert(seg[j] == s[pos + j]);
            }
            assert forall|j: int| te - pos <= j < seg.len() implies is_space(seg[j]) by {
                assert(seg[j] == s[pos + j]);
            }
            if ts < end {
                assert(seg[ts - pos] == s[ts as int]);
            }
            if te > ts {
                assert(seg[te - pos - 1] == s[te - 1]);
            }
            lemma_trim_range(seg, ts - pos, te - pos);
            assert(seg.subrange(ts - pos, te - pos) =~= s.subrange(ts as int, te as int));
        }
        let domain = allow_origin.substring_char(ts, te);
        let ghost before = out.deep_view();
        out.push("http://".to_owned().concat(domain));
        out.push("https://".to_owned().concat(domain));
        proof {
            assert(out.deep_view() =~~= before + origin_entries(trim(seg)));
        }
        if end == n {
            proof {
                assert(rem =~= seg);
                assert(out.deep_view() =~~= allowed_origins_spec(s));
            }
            return out;
        }
        proof {
            assert(rem.subrange(end - pos + 1, rem.len() as int) =~= s.subrange(
                end + 1,
                n as int,
            ));
            assert(out.deep_view() + allowed_origins_spec(s.subrange(end + 1, n as int))
                =~~= allowed_origins_spec(s));
        }
        pos = end + 1;
    }
}

} // verus!
