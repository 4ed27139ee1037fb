use std::collections::HashSet;

use jsonwebtoken::{decode, encode, DecodingKey, EncodingKey, Header, Validation};
use serde_json::Value;
use vstd::prelude::*;
use vstd::string::StringExecFns;

use crate::config::Config;
use crate::error::AppError;
use crate::models::{Claims, ClaimsView, Credentials, LoginRequest, LoginResponse};
use crate::strutil::{
    find_char, is_space, is_space_char, lemma_find_char_from_scan, lemma_find_char_spec,
    lemma_trim_range, str_matches_at, trim,
};

verus! {

/// The session token that the signed-token scheme produces for the given
/// secret and claims. `jwt_encode` below computes it with jsonwebtoken,
/// which derives it from its arguments alone: a fixed header, the
/// serialized claims and an HMAC-SHA256 signature over both.
pub uninterp spec fn jwt_token_of(secret: Seq<char>, sub: Seq<char>, iat: int, exp: int) -> Seq<char>;

/// Relies on jsonwebtoken::encode (HS256 header, secret key): the token
/// is a function of the secret and the claims alone, and HMAC signing of
/// this fixed claims shape cannot fail.
#[verifier::external_body]
fn jwt_encode(secret: &str, sub: &str, iat: i64, exp: i64) -> (r: Result<String, String>)
    ensures
        r is Ok,
        r matches Ok(t) ==> t@ == jwt_token_of(secret@, sub@, iat as int, exp as int),
{
    let mut m = serde_json::Map::new();
    m.insert("sub".to_string(), Value::String(sub.to_string()));
    m.insert("iat".to_string(), Value::from(iat));
    m.insert("exp".to_string(), Value::from(exp));
    let key = EncodingKey::from_secret(secret.as_bytes());
    encode(&Header::default(), &m, &key).map_err(|e| e.to_string())
}

/// What decoding promises: any token that `jwt_encode` produced for the
/// same secret decodes successfully, to exactly the claims it was signed
/// over.
pub open spec fn jwt_decode_post(secret: Seq<char>, token: Seq<char>, r: Result<Claims, String>) -> bool {
    forall|sub: Seq<char>, iat: int, exp: int|
        token == #[trigger] jwt_token_of(secret, sub, iat, exp)
            ==> (r matches Ok(c) && c@ == (ClaimsView { sub, iat, exp }))
}

/// Relies on jsonwebtoken::decode, with expiry checking turned off and no
/// claims required: it verifies the HS256 signature and nothing else, so a
/// token from `jwt_encode` under the same secret recovers its claims.
#[verifier::external_body]
fn jwt_decode(token: &str, secret: &str) -> (r: Result<Claims, String>)
    ensures
        jwt_decode_post(secret@, token@, r),
{
    let mut v = Validation::default();
    v.validate_exp = false;
    v.required_spec_claims = HashSet::new();
    let key = DecodingKey::from_secret(secret.as_bytes());
    let d = decode::<Value>(token, &key, &v).map_err(|e| e.to_string())?;
    let c = d.claims;
    match (c.get("sub").and_then(Value::as_str), c.get("iat").and_then(Value::as_i64), c.get("exp").and_then(Value::as_i64)) {
        (Some(s), Some(i), Some(e)) => Ok(Claims { sub: s.to_string(), iat: i, exp: e }),
        _ => Err("malformed claims".to_string()),
    }
}

/// Relies on chrono's Utc::now for the current Unix timestamp; nothing is
/// assumed about the value it returns.
#[verifier::external_body]
fn current_timestamp() -> i64 {
    chrono::Utc::now().timestamp()
}

/// Issue a session token for `username` as of time `now`: the claims are
/// issued-at `now` and expire exactly `config.jwt.expiration` seconds
/// later (which may lie in the past when the configured lifetime is zero
/// or negative).
pub fn generate_token_at(username: &str, config: &Config, now: i64) -> (r: Result<(String, i64), AppError>)
    requires
        i64::MIN <= now + config.jwt.expiration <= i64::MAX,
    ensures
        r matches Ok(p) && p.0@ == jwt_token_of(
            config.jwt.secret@,
            username@,
            now as int,
            now + config.jwt.expiration,
        ) && p.1 == now + config.jwt.expiration,
{
    let exp = now + config.jwt.expiration;
    match jwt_encode(config.jwt.secret.as_str(), username, now, exp) {
        Ok(token) => Ok((token, exp)),
        Err(m) => Err(AppError::Jwt("Failed to create token: ".to_owned().concat(m.as_str()))),
    }
}

/// Issue a session token for `username` with issued-at taken from the
/// clock. Fails only when the configured lifetime pushes the expiry out of
/// the representable range.
pub fn generate_token(username: &str, config: &Config) -> (r: Result<(String, i64), AppError>)
    ensures
        r matches Ok(p) ==> (exists|iat: int, exp: int|
            p.0@ == #[trigger] jwt_token_of(config.jwt.secret@, username@, iat, exp)
                && exp == iat + config.jwt.expiration && p.1 == exp),
        r matches Err(e) ==> e matches AppError::Internal(_),
{
    let now = current_timestamp();
    match now.checked_add(config.jwt.expiration) {
        Some(_) => {
            let r = generate_token_at(username, config, now);
            match r {
                Ok(p) => {
                    proof {
                        let iat = now as int;
                        assert(p.0@ == jwt_token_of(
                            config.jwt.secret@,
                            username@,
                            iat,
                            iat + config.jwt.expiration,
                        ));
                    }
                    Ok(p)
                }
                Err(e) => Err(e),
            }
        }
        None => Err(AppError::Internal("token expiry is out of range".to_owned())),
    }
}

/// Check a token's signature and structure under the configured secret and
/// recover its claims. A token that was issued for this secret validates
/// to exactly the claims it was issued with; expiry is not checked here
/// but by the caller, as a separate step.
pub fn validate_token(token: &str, config: &Config) -> (r: Result<Claims, AppError>)
    ensures
        forall|sub: Seq<char>, iat: int, exp: int|
            token@ == #[trigger] jwt_token_of(config.jwt.secret@, sub, iat, exp)
                ==> (r matches Ok(c) && c@ == (ClaimsView { sub, iat, exp })),
        r matches Err(e) ==> e matches AppError::Jwt(_),
{
    match jwt_decode(token, config.jwt.secret.as_str()) {
        Ok(c) => Ok(c),
        Err(m) => Err(AppError::Jwt("Invalid token: ".to_owned().concat(m.as_str()))),
    }
}

/// Whether a login attempt presents exactly the configured identity pair.
pub open spec fn credentials_match(login_req: &LoginRequest, credentials: &Credentials) -> bool {
    login_req.username@ == credentials.username@ && login_req.password@ == credentials.password@
}

/// The credential gate: compare the presented pair against the configured
/// identity and issue a session token on success. A username mismatch and
/// a password mismatch produce the identical failure, so that the caller
/// cannot tell them apart.
pub fn login(login_req: &LoginRequest, credentials: &Credentials, config: &Config) -> (r: Result<
    LoginResponse,
    AppError,
>)
    ensures
        !credentials_match(login_req, credentials) ==> (r matches Err(e) && e matches AppError::Auth(
            m,
        ) && m@ == "Invalid username or password"@),
        r matches Ok(resp) ==> (credentials_match(login_req, credentials) && exists|iat: int, exp: int|
            resp.token@ == #[trigger] jwt_token_of(
                config.jwt.secret@,
                login_req.username@,
                iat,
                exp,
            ) && exp == iat + config.jwt.expiration && resp.expires_at == exp),
        credentials_match(login_req, credentials) ==> (r matches Ok(resp) || (r matches Err(e)
            && e matches AppError::Internal(_))),
{
    if login_req.username != credentials.username {
        return Err(AppError::Auth("Invalid username or password".to_owned()));
    }
    if login_req.password != credentials.password {
        return Err(AppError::Auth("Invalid username or password".to_owned()));
    }
    match generate_token(login_req.username.as_str(), config) {
        Ok((token, expires_at)) => Ok(LoginResponse { token, expires_at }),
        Err(e) => Err(e),
    }
}

/// The `auth_token=` prefix that marks the session cookie in a raw header.
pub open spec fn auth_cookie_prefix() -> Seq<char> {
    seq!['a', 'u', 't', 'h', '_', 't', 'o', 'k', 'e', 'n', '=']
}

/// The token carried by one (already trimmed) cookie segment, if any.
pub open spec fn segment_token(seg: Seq<char>) -> Option<Seq<char>> {
    if seg.len() >= 11 && seg.subrange(0, 11) == auth_cookie_prefix() {
        Some(seg.subrange(11, seg.len() as int))
    } else {
        None
    }
}

/// The token of the first `auth_token=` entry in a raw cookie header: the
/// header splits on `;`, each piece is trimmed, and the first piece that
/// starts with `auth_token=` yields the rest of that piece.
pub open spec fn cookie_token(s: Seq<char>) -> Option<Seq<char>>
    decreases s.len(),
    via cookie_token_decreases
{
    match find_char(s, ';') {
        None => segment_token(trim(s)),
        Some(i) => match segment_token(trim(s.subrange(0, i))) {
            Some(t) => Some(t),
            None => cookie_token(s.subrange(i + 1, s.len() as int)),
        },
    }
}

#[via_fn]
proof fn cookie_token_decreases(s: Seq<char>) {
    lemma_find_char_spec(s, ';');
}

/// Scan a raw cookie header for an `auth_token=` entry, as a defensive
/// fallback for clients and proxies that do not expose structured cookie
/// parsing.
pub fn extract_token_from_cookies(cookies: &str) -> (r: Option<String>)
    ensures
        match r {
            Some(t) => cookie_token(cookies@) == Some(t@),
            None => cookie_token(cookies@) is None,
        },
{
    let ghost s = cookies@;
    let n = cookies.unicode_len();
    let mut prefix: Vec<char> = Vec::new();
    prefix.push('a');
    prefix.push('u');
    prefix.push('t');
    prefix.push('h');
    prefix.push('_');
    prefix.push('t');
    prefix.push('o');
    prefix.push('k');
    prefix.push('e');
    prefix.push('n');
    prefix.push('=');
    proof {
        assert(prefix@ =~= auth_cookie_prefix());
        assert(s.subrange(0, n as int) =~= s);
    }
    let mut pos: usize = 0;
    loop
        invariant
            0 <= pos <= n,
            n == s.len(),
            s == cookies@,
            prefix@ == auth_cookie_prefix(),
            prefix@.len() == 11,
            cookie_token(s) == cookie_token(s.subrange(pos as int, n as int)),
        decreases n - pos,
    {
        let ghost rem = s.subrange(pos as int, n as int);
        // Find the end of the current segment.
        let mut end: usize = pos;
        while end < n && cookies.get_char(end) != ';'
            invariant
                pos <= end <= n,
                n == s.len(),
                s == cookies@,
                forall|j: int| pos <= j < end ==> s[j] != ';',
            decreases n - end,
        {
            end += 1;
        }
        proof {
            assert forall|j: int| 0 <= j < end - pos implies rem[j] != ';' by {
                assert(rem[j] == s[pos + j]);
            }
            if (end as int) < n as int {
                assert(rem[end - pos] == s[end as int]);
            }
            lemma_find_char_from_scan(rem, ';', end - pos);
        }
        // Trim whitespace from both edges of the segment.
        let mut ts: usize = pos;
        while ts < end && is_space_char(cookies.get_char(ts))
            invariant
                pos <= ts <= end,
                end <= n,
                n == s.len(),
                s == cookies@,
                forall|j: int| pos <= j < ts ==> is_space(s[j]),
            decreases end - ts,
        {
            ts += 1;
        }
        let mut te: usize = end;
        while te > ts && is_space_char(cookies.get_char(te - 1))
            invariant
                ts <= te <= end,
                end <= n,
                n == s.len(),
                s == cookies@,
                forall|j: int| te <= j < end ==> is_space(s[j]),
            decreases te,
        {
            te -= 1;
        }
        let ghost seg = s.subrange(pos as int, end as int);
        proof {
            assert(seg =~= rem.subrange(0, end - pos));
            assert forall|j: int| 0 <= j < ts - pos implies is_space(seg[j]) by {
                assert(seg[j] == s[pos + j]);
            }
            assert forall|j: int| te - pos <= j < seg.len() implies is_space(seg[j]) by {
                assert(seg[j] == s[pos + j]);
            }
            if ts < end {
                assert(seg[ts - pos] == s[ts as int]);
            }
            if te > ts {
                assert(seg[te - pos - 1] == s[te - 1]);
            }
            lemma_trim_range(seg, ts - pos, te - pos);
            assert(seg.subrange(ts - pos, te - pos) =~= s.subrange(ts as int, te as int));
        }
        let matched = if te - ts >= 11 {
            str_matches_at(cookies, ts, &prefix)
        } else {
            false
        };
        if matched {
            let token = cookies.substring_char(ts + 11, te).to_owned();
            proof {
                let trimmed = s.subrange(ts as int, te as int);
                assert(trimmed.subrange(0, 11) =~= s.subrange(ts as int, ts as int + 11));
                assert(trimmed.subrange(11, trimmed.len() as int) =~= s.subrange(
                    ts as int + 11,
                    te as int,
                ));
                assert(segment_token(trim(seg)) == Some(token@));
                if end == n {
                    assert(rem =~= seg);
                } else {
                    assert(rem.subrange(0, end - pos) =~= seg);
                }
                assert(cookie_token(rem) == Some(token@));
            }
            return Some(token);
        }
        proof {
            let trimmed = s.subrange(ts as int, te as int);
            if te - ts >= 11 {
                assert(trimmed.subrange(0, 11) =~= s.subrange(ts as int, ts as int + 11));
                assert(segment_token(trim(seg)) is None);
            } else {
                assert(segment_token(trim(seg)) is None);
            }
        }
        if end == n {
            proof {
                assert(rem =~= seg);
                assert(cookie_token(rem) is None);
            }
            return None;
        }
        proof {
            assert(rem.subrange(end - pos + 1, rem.len() as int) =~= s.subrange(
                end + 1,
                n as int,
            ));
            assert(cookie_token(rem) == cookie_token(s.subrange(end + 1, n as int)));
        }
        pos = end + 1;
    }
}

/// Why the middleware turned a request away.
#[derive(Clone, Copy, Debug, PartialEq, Eq, Structural)]
pub enum AuthRejection {
    /// No token was presented through any carrier.
    AuthenticationRequired,
    /// A token was presented but its signature or structure is invalid.
    InvalidToken,
    /// A structurally valid token has expired.
    TokenExpired,
}

/// The middleware's verdict on one request.
#[derive(Debug)]
pub enum AuthOutcome {
    /// The request is authenticated as this subject.
    Admit(String),
    Reject(AuthRejection),
}

/// The mathematical content of an `AuthOutcome`.
pub enum AuthOutcomeView {
    Admit(Seq<char>),
    Reject(AuthRejection),
}

impl View for AuthOutcome {
    type V = AuthOutcomeView;

    open spec fn view(&self) -> AuthOutcomeView {
        match self {
            AuthOutcome::Admit(subject) => AuthOutcomeView::Admit(subject@),
            AuthOutcome::Reject(reason) => AuthOutcomeView::Reject(*reason),
        }
    }
}

/// The candidate token of a request: the bearer token if present, else the
/// structured cookie's token, else whatever a scan of the raw cookie
/// header turns up. This ordered fallback is deliberate and fixed.
pub open spec fn selected_token(
    bearer: Option<Seq<char>>,
    cookie: Option<Seq<char>>,
    raw: Option<Seq<char>>,
) -> Option<Seq<char>> {
    match bearer {
        Some(b) => Some(b),
        None => match cookie {
            Some(c) => Some(c),
            None => match raw {
                Some(rc) => cookie_token(rc),
                None => None,
            },
        },
    }
}

/// The middleware's decision given the candidate token, the result of validating
/// it (`None` when signature or structure checking failed), and the
/// current time.
pub open spec fn gate_decision(
    candidate: Option<Seq<char>>,
    decoded: Option<ClaimsView>,
    now: int,
) -> AuthOutcomeView {
    match candidate {
        None => AuthOutcomeView::Reject(AuthRejection::AuthenticationRequired),
        Some(_) => match decoded {
            None => AuthOutcomeView::Reject(AuthRejection::InvalidToken),
            Some(c) => if c.exp < now {
                AuthOutcomeView::Reject(AuthRejection::TokenExpired)
            } else {
                AuthOutcomeView::Admit(c.sub)
            },
        },
    }
}

/// The authentication gate: pick a candidate token from the carriers in
/// their fixed order, validate it, check expiry against `now`, and admit
/// or reject. For any token issued under the configured secret the verdict
/// is exactly `gate_decision` on its claims; with no candidate token the
/// request is rejected as unauthenticated before any validation.
pub fn authenticate(
    bearer: Option<String>,
    cookie: Option<String>,
    raw_cookies: Option<String>,
    config: &Config,
    now: i64,
) -> (r: AuthOutcome)
    ensures
        selected_token(bearer.deep_view(), cookie.deep_view(), raw_cookies.deep_view()) is None
            ==> r@ == AuthOutcomeView::Reject(AuthRejection::AuthenticationRequired),
        selected_token(bearer.deep_view(), cookie.deep_view(), raw_cookies.deep_view()) is Some
            ==> r@ != AuthOutcomeView::Reject(AuthRejection::AuthenticationRequired),
        forall|sub: Seq<char>, iat: int, exp: int|
            selected_token(bearer.deep_view(), cookie.deep_view(), raw_cookies.deep_view())
                == Some(#[trigger] jwt_token_of(config.jwt.secret@, sub, iat, exp))
                ==> r@ == gate_decision(
                    Some(jwt_token_of(config.jwt.secret@, sub, iat, exp)),
                    Some(ClaimsView { sub, iat, exp }),
                    now as int,
                ),
{
    let ghost cand = selected_token(bearer.deep_view(), cookie.deep_view(), raw_cookies.deep_view());
    let candidate: Option<String> = match bearer {
        Some(b) => Some(b),
        None => match cookie {
            Some(c) => Some(c),
            None => match raw_cookies {
                Some(rc) => extract_token_from_cookies(rc.as_str()),
                None => None,
            },
        },
    };
    match candidate {
        None => AuthOutcome::Reject(AuthRejection::AuthenticationRequired),
        Some(token) => {
            proof {
                assert(cand == Some(token@));
            }
            match validate_token(token.as_str(), config) {
                Err(_) => AuthOutcome::Reject(AuthRejection::InvalidToken),
                Ok(claims) => {
                    if claims.exp < now {
                        AuthOutcome::Reject(AuthRejection::TokenExpired)
                    } else {
                        AuthOutcome::Admit(claims.sub)
                    }
                },
            }
        },
    }
}

/// A token issued with a zero or negative lifetime fails the middleware's expiry
/// check with `TokenExpired`, even though its signature validates (the
/// claims were recovered). The one boundary left out by the preconditions:
/// a zero lifetime checked in the very second of issuance, where the
/// expiry does not yet lie strictly in the past.
pub proof fn lemma_nonpositive_lifetime_rejected(
    candidate: Seq<char>,
    c: ClaimsView,
    lifetime: int,
    now: int,
)
    requires
        c.exp == c.iat + lifetime,
        lifetime <= 0,
        c.iat <= now,
        !(lifetime == 0 && c.iat == now),
    ensures
        gate_decision(Some(candidate), Some(c), now) == AuthOutcomeView::Reject(
            AuthRejection::TokenExpired,
        ),
{
}

/// The same valid token, presented through the bearer header, the
/// structured cookie, or a raw cookie header that scans to it, leads the
/// gate to the identical verdict; when the claims are unexpired that
/// verdict admits the token's subject.
pub proof fn lemma_carrier_equivalence(
    t: Seq<char>,
    raw: Seq<char>,
    decoded: Option<ClaimsView>,
    now: int,
)
    requires
        cookie_token(raw) == Some(t),
    ensures
        gate_decision(selected_token(Some(t), None, None), decoded, now) == gate_decision(
            selected_token(None, Some(t), None),
            decoded,
            now,
        ),
        gate_decision(selected_token(None, Some(t), None), decoded, now) == gate_decision(
            selected_token(None, None, Some(raw)),
            decoded,
            now,
        ),
        decoded matches Some(c) ==> c.exp >= now ==> gate_decision(
            selected_token(Some(t), None, None),
            decoded,
            now,
        ) == AuthOutcomeView::Admit(c.sub),
{
}

/// With no bearer token, no structured cookie token, and a raw cookie
/// header (if any at all) that holds no `auth_token=` entry, the middleware
/// rejects with `AuthenticationRequired`, whatever validation would have
/// said of any token.
pub proof fn lemma_no_token_rejected(raw: Option<Seq<char>>, decoded: Option<ClaimsView>, now: int)
    requires
        raw matches Some(rc) ==> cookie_token(rc) is None,
    ensures
        gate_decision(selected_token(None, None, raw), decoded, now) == AuthOutcomeView::Reject(
            AuthRejection::AuthenticationRequired,
        ),
{
}

} // verus!
