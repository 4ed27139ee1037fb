use vstd::prelude::*;

use crate::models::SSEEvent;

verus! {

/// One event of the outward stream.
#[derive(Debug)]
pub enum StreamEvent {
    /// One incremental piece of generated text.
    Fragment(String),
    /// A failure description, emitted at most once, right before `Done`.
    Error(String),
    /// The mandatory terminal marker.
    Done,
}

/// What the upstream yields while streaming: a chunk of incremental
/// choices (each possibly carrying content), or a mid-flight failure.
#[derive(Debug)]
pub enum UpstreamEvent {
    Chunk(Vec<Option<String>>),
    Failed(String),
}

/// The fragment that one choice contributes: its content when present and
/// non-empty, nothing otherwise.
pub open spec fn choice_fragment(c: Option<String>) -> Seq<StreamEvent> {
    match c {
        Some(content) => if content@.len() > 0 {
            seq![StreamEvent::Fragment(content)]
        } else {
            Seq::empty()
        },
        None => Seq::empty(),
    }
}

/// The fragments that one upstream chunk contributes, in arrival order.
pub open spec fn chunk_fragments(cs: Seq<Option<String>>) -> Seq<StreamEvent>
    decreases cs.len(),
{
    if cs.len() == 0 {
        Seq::empty()
    } else {
        chunk_fragments(cs.drop_last()) + choice_fragment(cs.last())
    }
}

/// The events that one upstream event contributes while the stream is
/// live: a chunk contributes its fragments; a failure contributes its
/// description and the terminal marker.
pub open spec fn step_events(ev: UpstreamEvent) -> Seq<StreamEvent> {
    match ev {
        UpstreamEvent::Chunk(cs) => chunk_fragments(cs@),
        UpstreamEvent::Failed(m) => seq![StreamEvent::Error(m), StreamEvent::Done],
    }
}

/// The complete outward event log for an upstream run: the fragments of
/// each chunk in order, cut short by the first failure, and in every case
/// terminated by `Done`.
pub open spec fn relay_log(run: Seq<UpstreamEvent>) -> Seq<StreamEvent>
    decreases run.len(),
{
    if run.len() == 0 {
        seq![StreamEvent::Done]
    } else if run[0] is Failed {
        step_events(run[0])
    } else {
        step_events(run[0]) + relay_log(run.drop_first())
    }
}

proof fn lemma_chunk_fragments_only_fragments(cs: Seq<Option<String>>)
    ensures
        forall|i: int|
            0 <= i < chunk_fragments(cs).len() ==> chunk_fragments(cs)[i] is Fragment,
    decreases cs.len(),
{
    if cs.len() > 0 {
        lemma_chunk_fragments_only_fragments(cs.drop_last());
    }
}

/// The terminal-marker law: every relay log ends in `Done`, `Done` appears
/// nowhere earlier, an `Error`, if any, stands immediately before the
/// terminal `Done`, and everything before the last two events is a
/// fragment.
pub proof fn lemma_relay_log_terminated(run: Seq<UpstreamEvent>)
    ensures
        relay_log(run).len() >= 1,
        relay_log(run).last() == StreamEvent::Done,
        forall|i: int| 0 <= i < relay_log(run).len() - 1 ==> relay_log(run)[i] != StreamEvent::Done,
        forall|i: int|
            0 <= i < relay_log(run).len() && relay_log(run)[i] is Error ==> i == relay_log(
                run,
            ).len() - 2,
        forall|i: int| 0 <= i < relay_log(run).len() - 2 ==> relay_log(run)[i] is Fragment,
    decreases run.len(),
{
    if run.len() == 0 {
    } else if run[0] is Failed {
    } else {
        let frags = step_events(run[0]);
        let rest = relay_log(run.drop_first());
        lemma_relay_log_terminated(run.drop_first());
        match run[0] {
            UpstreamEvent::Chunk(cs) => {
                lemma_chunk_fragments_only_fragments(cs@);
            },
            UpstreamEvent::Failed(_) => {},
        }
        assert(relay_log(run) == frags + rest);
        assert((frags + rest).last() == rest.last());
        assert forall|i: int|
            0 <= i < relay_log(run).len() - 1 implies relay_log(run)[i] != StreamEvent::Done by {
            if i < frags.len() {
                assert(relay_log(run)[i] == frags[i]);
                assert(frags[i] is Fragment);
            } else {
                assert(relay_log(run)[i] == rest[i - frags.len()]);
            }
        }
        assert forall|i: int|
            0 <= i < relay_log(run).len() && relay_log(run)[i] is Error implies i == relay_log(
            run,
        ).len() - 2 by {
            if i < frags.len() {
                assert(frags[i] is Fragment);
            } else {
                assert(relay_log(run)[i] == rest[i - frags.len()]);
            }
        }
        assert forall|i: int| 0 <= i < relay_log(run).len() - 2 implies relay_log(
            run,
        )[i] is Fragment by {
            if i < frags.len() {
                assert(relay_log(run)[i] == frags[i]);
            } else {
                assert(relay_log(run)[i] == rest[i - frags.len()]);
            }
        }
    }
}

/// The bridge's producer-side state machine: live until the upstream
/// completes or fails, after which nothing more may be emitted.
pub struct StreamBridge {
    terminated: bool,
}

impl StreamBridge {
    /// Whether the bridge still accepts upstream events.
    pub closed spec fn is_live(&self) -> bool {
        !self.terminated
    }

    pub fn new() -> (b: StreamBridge)
        ensures
            b.is_live(),
    {
        StreamBridge { terminated: false }
    }

    /// Feed one upstream event through the bridge and collect the outward
    /// events it contributes. A failure terminates the bridge (its `Done`
    /// marker is included); chunks keep it live.
    pub fn on_event(&mut self, ev: UpstreamEvent) -> (out: Vec<StreamEvent>)
        requires
            old(self).is_live(),
        ensures
            out@ == step_events(ev),
            final(self).is_live() == !(ev is Failed),
    {
        match ev {
            UpstreamEvent::Chunk(cs) => {
                let mut out: Vec<StreamEvent> = Vec::new();
                let mut i: usize = 0;
                while i < cs.len()
                    invariant
                        0 <= i <= cs.len(),
                        out@ == chunk_fragments(cs@.take(i as int)),
                    decreases cs.len() - i,
                {
                    let choice = &cs[i];
                    match choice {
                        Some(content) => {
                            if !content.as_str().is_empty() {
                                out.push(StreamEvent::Fragment(content.clone()));
                            }
                        },
                        None => {},
                    }
                    proof {
                        assert(cs@.take(i + 1).drop_last() =~= cs@.take(i as int));
                        assert(cs@.take(i + 1).last() == cs@[i as int]);
                    }
                    i += 1;
                }
                proof {
                    assert(cs@.take(cs@.len() as int) =~= cs@);
                }
                out
            },
            UpstreamEvent::Failed(m) => {
                self.terminated = true;
                let mut out: Vec<StreamEvent> = Vec::new();
                out.push(StreamEvent::Error(m));
                out.push(StreamEvent::Done);
                proof {
                    assert(out@ =~= step_events(UpstreamEvent::Failed(m)));
                }
                out
            },
        }
    }

    /// Close a bridge whose upstream completed normally: the terminal
    /// `Done` marker, and nothing after it.
    pub fn finish(&mut self) -> (out: Vec<StreamEvent>)
        requires
            old(self).is_live(),
        ensures
            out@ == seq![StreamEvent::Done],
            !final(self).is_live(),
    {
        self.terminated = true;
        let mut out: Vec<StreamEvent> = Vec::new();
        out.push(StreamEvent::Done);
        proof {
            assert(out@ =~= seq![StreamEvent::Done]);
        }
        out
    }
}

/// Relay a complete upstream run into the outward event sequence: exactly
/// `relay_log` of the run, so fragments keep their order, a failure is
/// reported once, and the last event is always `Done`.
#[verifier::loop_isolation(false)]
pub fn relay(run: Vec<UpstreamEvent>) -> (out: Vec<StreamEvent>)
    ensures
        out@ == relay_log(run@),
{
    let ghost run0 = run@;
    let mut bridge = StreamBridge::new();
    let mut out: Vec<StreamEvent> = Vec::new();
    let mut rest = run;
    proof {
        assert(out@ + relay_log(rest@) =~= relay_log(run0));
    }
    loop
        invariant
            bridge.is_live(),
            relay_log(run0) == out@ + relay_log(rest@),
        decreases rest@.len(),
    {
        if rest.len() == 0 {
            let mut tail = bridge.finish();
            out.append(&mut tail);
            proof {
                assert(relay_log(run0) =~= out@);
            }
            return out;
        }
        let ghost prev = rest@;
        let ev = rest.remove(0);
        proof {
            assert(prev.remove(0) =~= prev.drop_first());
        }
        let failed = matches!(ev, UpstreamEvent::Failed(_));
        let mut contributed = bridge.on_event(ev);
        out.append(&mut contributed);
        if failed {
            proof {
                assert(relay_log(run0) =~= out@);
            }
            return out;
        }
        proof {
            assert(prev[0] !is Failed);
            assert(relay_log(prev) == step_events(prev[0]) + relay_log(prev.drop_first()));
            assert(out@ + relay_log(rest@) =~= relay_log(run0));
        }
    }
}

/// Render one stream event in its wire form.
pub fn to_sse_event(ev: &StreamEvent) -> (r: SSEEvent)
    ensures
        ev matches StreamEvent::Fragment(c) ==> r.event@ == "message"@ && r.data@ == c@,
        ev matches StreamEvent::Error(m) ==> r.event@ == "error"@ && r.data@ == m@,
        ev is Done ==> r.event@ == "done"@ && r.data@ == ""@,
{
    match ev {
        StreamEvent::Fragment(c) => SSEEvent { event: "message".to_owned(), data: c.clone() },
        StreamEvent::Error(m) => SSEEvent { event: "error".to_owned(), data: m.clone() },
        StreamEvent::Done => SSEEvent { event: "done".to_owned(), data: "".to_owned() },
    }
}

/// A bounded, ordered, single-producer/single-consumer conduit between the
/// bridge's producer and the downstream writer. Pushing to a full conduit
/// is refused rather than growing the buffer, so a slow consumer
/// backpressures the producer instead of losing events or buffering
/// without bound.
pub struct Conduit {
    buffer: Vec<StreamEvent>,
    capacity: usize,
}

impl Conduit {
    /// The queued events, oldest first.
    pub closed spec fn contents(&self) -> Seq<StreamEvent> {
        self.buffer@
    }

    /// The fixed bound the conduit was created with.
    pub closed spec fn cap(&self) -> int {
        self.capacity as int
    }

    /// The backpressure invariant: the buffer never exceeds the bound.
    pub open spec fn wf(&self) -> bool {
        self.contents().len() <= self.cap()
    }

    pub fn new(capacity: usize) -> (q: Conduit)
        ensures
            q.wf(),
            q.cap() == capacity,
            q.contents() == Seq::<StreamEvent>::empty(),
    {
        Conduit { buffer: Vec::new(), capacity }
    }

    pub fn len(&self) -> (n: usize)
        ensures
            n == self.contents().len(),
    {
        self.buffer.len()
    }

    /// Offer one event to the conduit. A full conduit refuses and hands
    /// the event back unchanged; otherwise the event is queued at the end.
    pub fn try_push(&mut self, ev: StreamEvent) -> (r: Result<(), StreamEvent>)
        requires
            old(self).wf(),
        ensures
            final(self).wf(),
            final(self).cap() == old(self).cap(),
            old(self).contents().len() < old(self).cap() ==> (r is Ok && final(self).contents()
                == old(self).contents().push(ev)),
            old(self).contents().len() >= old(self).cap() ==> (r matches Err(e) && e == ev
                && final(self).contents() == old(self).contents()),
    {
        if self.buffer.len() < self.capacity {
            self.buffer.push(ev);
            Ok(())
        } else {
            Err(ev)
        }
    }

    /// Take the oldest queued event, if any.
    pub fn pop(&mut self) -> (r: Option<StreamEvent>)
        requires
            old(self).wf(),
        ensures
            final(self).wf(),
            final(self).cap() == old(self).cap(),
            old(self).contents().len() == 0 ==> (r is None
                && final(self).contents() == old(self).contents()),
            old(self).contents().len() > 0 ==> (r == Some(old(self).contents()[0])
                && final(self).contents() == old(self).contents().drop_first()),
    {
        if self.buffer.len() == 0 {
            None
        } else {
            let ev = self.buffer.remove(0);
            proof {
                assert(old(self).contents().remove(0) =~= old(self).contents().drop_first());
            }
            Some(ev)
        }
    }
}

} // verus!
