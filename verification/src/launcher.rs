//! Process launcher support: the forwarding rule for the child's captured
//! output stream.
//!
//! The launcher spawns the child with its standard output wired into a lazy
//! sequence of events, consumed by a background task until the stream closes.
//! The rule the task applies to each event is decided here: a standard-output
//! line is forwarded verbatim to the log sink, one call per line; every other
//! event is dropped.

use vstd::prelude::*;

verus! {

/// One event of the child's captured output stream.  The stream ends (the
/// child exited or the pipe closed) by ending the sequence of events, not by
/// a variant of its own.
#[derive(Debug)]
pub enum OutputEvent {
    /// One line read from the child's standard output.
    StdoutLine(String),
    /// Anything else the capture reports (standard error, status changes);
    /// not forwarded to the log sink.
    OtherEvent,
}

/// What the log sink receives for one event: the line, forwarded verbatim,
/// or nothing.
pub open spec fn spec_forwarded(ev: OutputEvent) -> Option<Seq<char>> {
    match ev {
        OutputEvent::StdoutLine(l) => Some(l@),
        OutputEvent::OtherEvent => None,
    }
}

/// The lines the log sink receives for a whole stream of events, in stream
/// order.
pub open spec fn forwarded_lines(evs: Seq<OutputEvent>) -> Seq<Seq<char>>
    decreases evs.len(),
{
    if evs.len() == 0 {
        Seq::empty()
    } else {
        match spec_forwarded(evs[0]) {
            Some(l) => seq![l] + forwarded_lines(evs.drop_first()),
            None => forwarded_lines(evs.drop_first()),
        }
    }
}

/// Apply the forwarding rule to one event: the log sink gets exactly the
/// standard-output lines, each verbatim.
pub fn forward_one(ev: &OutputEvent) -> (r: Option<String>)
    ensures
        (r is Some) == (spec_forwarded(*ev) is Some),
        r is Some ==> r->0@ == spec_forwarded(*ev)->0,
{
    match ev {
        OutputEvent::StdoutLine(l) => Some(l.clone()),
        OutputEvent::OtherEvent => None,
    }
}

/// Extending a stream by one event appends that event's forwarded line, if
/// any, and nothing else.
pub proof fn lemma_forwarded_lines_push(evs: Seq<OutputEvent>, ev: OutputEvent)
    ensures
        forwarded_lines(evs.push(ev)) == (match spec_forwarded(ev) {
            Some(l) => forwarded_lines(evs) + seq![l],
            None => forwarded_lines(evs),
        }),
    decreases evs.len(),
{
    let p = evs.push(ev);
    if evs.len() == 0 {
        assert(p.len() == 1);
        assert(p[0] == ev);
        assert(p.drop_first().len() == 0);
        assert(forwarded_lines(p.drop_first()) == Seq::<Seq<char>>::empty());
        assert(forwarded_lines(evs) == Seq::<Seq<char>>::empty());
        match spec_forwarded(ev) {
            Some(l) => {
                assert(forwarded_lines(p) == seq![l] + Seq::<Seq<char>>::empty());
                assert(seq![l] + Seq::<Seq<char>>::empty() =~= Seq::<Seq<char>>::empty()
                    + seq![l]);
            },
            None => {
                assert(forwarded_lines(p) == Seq::<Seq<char>>::empty());
            },
        }
    } else {
        let d = evs.drop_first();
        assert(p[0] == evs[0]);
        assert(p.drop_first() =~= d.push(ev));
        lemma_forwarded_lines_push(d, ev);
        match spec_forwarded(ev) {
            Some(l) => {
                match spec_forwarded(evs[0]) {
                    Some(l0) => {
                        assert(forwarded_lines(p) == seq![l0] + (forwarded_lines(d) + seq![l]));
                        assert(seq![l0] + (forwarded_lines(d) + seq![l]) =~= (seq![l0]
                            + forwarded_lines(d)) + seq![l]);
                        assert(forwarded_lines(evs) == seq![l0] + forwarded_lines(d));
                    },
                    None => {
                        assert(forwarded_lines(p) == forwarded_lines(d) + seq![l]);
                        assert(forwarded_lines(evs) == forwarded_lines(d));
                    },
                }
            },
            None => {
                match spec_forwarded(evs[0]) {
                    Some(l0) => {
                        assert(forwarded_lines(p) == seq![l0] + forwarded_lines(d));
                        assert(forwarded_lines(evs) == seq![l0] + forwarded_lines(d));
                    },
                    None => {
                        assert(forwarded_lines(p) == forwarded_lines(d));
                        assert(forwarded_lines(evs) == forwarded_lines(d));
                    },
                }
            },
        }
    }
}

/// Run the forwarding rule over a finished stream: the result is exactly the
/// standard-output lines, verbatim, in order.
pub fn collect_forwarded(evs: &Vec<OutputEvent>) -> (out: Vec<String>)
    ensures
        out@.map_values(|s: String| s@) == forwarded_lines(evs@),
{
    let mut out: Vec<String> = Vec::new();
    let mut i: usize = 0;
    proof {
        assert(evs@.take(0) =~= Seq::<OutputEvent>::empty());
        assert(out@.map_values(|s: String| s@) =~= forwarded_lines(evs@.take(0)));
    }
    while i < evs.len()
        invariant
            i <= evs.len(),
            out@.map_values(|s: String| s@) == forwarded_lines(evs@.take(i as int)),
        decreases evs.len() - i,
    {
        proof {
            assert(evs@.take(i + 1) =~= evs@.take(i as int).push(evs@[i as int]));
            lemma_forwarded_lines_push(evs@.take(i as int), evs@[i as int]);
        }
        match forward_one(&evs[i]) {
            Some(l) => {
                out.push(l);
                proof {
                    assert(out@.map_values(|s: String| s@) =~= forwarded_lines(
                        evs@.take(i + 1),
                    ));
                }
            },
            None => {
                proof {
                    assert(out@.map_values(|s: String| s@) =~= forwarded_lines(
                        evs@.take(i + 1),
                    ));
                }
            },
        }
        i = i + 1;
    }
    proof {
        assert(evs@.take(evs@.len() as int) =~= evs@);
    }
    out
}

} // verus!
