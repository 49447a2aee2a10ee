//! Placing a bracket: both legs are sent, and what was not taken on is sent again,
//! a bounded number of times.
use crate::replies::{bracket_accepted, names_error};
use vstd::prelude::*;

verus! {

/// How often a leg is sent at most.
pub const MAX_ATTEMPTS: u8 = 3;

/// Milliseconds before the first attempt: the exchange registers the position
/// some time after it has reported the fill.
pub const SETTLE_MS: u64 = 80;

/// Milliseconds before each further attempt.
pub const RETRY_MS: u64 = 100;

/// What to do next.
#[derive(Clone, Copy, Debug, PartialEq, Eq, Structural)]
pub enum BracketStep {
    /// Wait, then send the legs named, and record the replies.
    Send { wait_ms: u64, tp: bool, sl: bool },
    /// Nothing is left to do; the legs named were never taken on.
    Done { tp_failed: bool, sl_failed: bool },
}

/// A bracket on its way to the exchange.
#[derive(Clone, Copy, Debug, PartialEq, Eq, Structural)]
pub struct BracketRun {
    pub attempt: u8,
    pub tp_placed: bool,
    pub sl_placed: bool,
}

/// A reply that takes a leg on: a body that could be read and names no error.
pub open spec fn takes_on(reply: Option<Vec<u8>>) -> bool {
    match reply {
        Some(body) => !names_error(body@),
        None => false,
    }
}

fn reply_takes_on(reply: &Option<Vec<u8>>) -> (r: bool)
    ensures
        r == takes_on(*reply),
{
    match reply {
        Some(body) => bracket_accepted(body.as_slice()),
        None => false,
    }
}

impl BracketRun {
    pub open spec fn wf(self) -> bool {
        self.attempt <= MAX_ATTEMPTS
    }

    /// Both legs are placed, or every attempt has been made.
    pub open spec fn finished(self) -> bool {
        (self.tp_placed && self.sl_placed) || self.attempt >= MAX_ATTEMPTS
    }

    pub open spec fn next_spec(self) -> BracketStep {
        if self.finished() {
            BracketStep::Done { tp_failed: !self.tp_placed, sl_failed: !self.sl_placed }
        } else {
            BracketStep::Send {
                wait_ms: if self.attempt == 0 {
                    SETTLE_MS
                } else {
                    RETRY_MS
                },
                tp: !self.tp_placed,
                sl: !self.sl_placed,
            }
        }
    }

    /// The run after an attempt with the given replies. A leg that is placed stays
    /// placed.
    pub open spec fn after(self, tp: Option<Vec<u8>>, sl: Option<Vec<u8>>) -> BracketRun {
        BracketRun {
            attempt: (self.attempt + 1) as u8,
            tp_placed: self.tp_placed || takes_on(tp),
            sl_placed: self.sl_placed || takes_on(sl),
        }
    }

    pub fn new() -> (r: BracketRun)
        ensures
            r.wf(),
            r == (BracketRun { attempt: 0, tp_placed: false, sl_placed: false }),
    {
        BracketRun { attempt: 0, tp_placed: false, sl_placed: false }
    }

    pub fn next(&self) -> (r: BracketStep)
        ensures
            r == self.next_spec(),
    {
        if (self.tp_placed && self.sl_placed) || self.attempt >= MAX_ATTEMPTS {
            BracketStep::Done { tp_failed: !self.tp_placed, sl_failed: !self.sl_placed }
        } else {
            let wait_ms: u64 = if self.attempt == 0 {
                SETTLE_MS
            } else {
                RETRY_MS
            };
            BracketStep::Send { wait_ms, tp: !self.tp_placed, sl: !self.sl_placed }
        }
    }

    /// Records the replies to an attempt; none for a leg that was not sent, whose
    /// sending failed, or whose reply could not be read.
    pub fn record(&mut self, tp: &Option<Vec<u8>>, sl: &Option<Vec<u8>>)
        requires
            old(self).wf(),
            !old(self).finished(),
        ensures
            final(self).wf(),
            *final(self) == old(self).after(*tp, *sl),
    {
        if !self.tp_placed {
            self.tp_placed = reply_takes_on(tp);
        }
        if !self.sl_placed {
            self.sl_placed = reply_takes_on(sl);
        }
        self.attempt = self.attempt + 1;
    }
}

/// A run after some attempts with the given replies.
pub open spec fn run_after(replies: Seq<(Option<Vec<u8>>, Option<Vec<u8>>)>) -> BracketRun
    decreases replies.len(),
{
    if replies.len() == 0 {
        BracketRun { attempt: 0, tp_placed: false, sl_placed: false }
    } else {
        let before = run_after(replies.drop_last());
        if before.finished() {
            before
        } else {
            before.after(replies.last().0, replies.last().1)
        }
    }
}

/// Whatever the replies, a run makes at most `MAX_ATTEMPTS` attempts, and it is
/// finished after that many.
pub proof fn law_attempts_are_bounded(replies: Seq<(Option<Vec<u8>>, Option<Vec<u8>>)>)
    ensures
        run_after(replies).wf(),
        run_after(replies).attempt <= replies.len(),
        replies.len() >= MAX_ATTEMPTS ==> run_after(replies).finished(),
        !run_after(replies).finished() ==> run_after(replies).attempt == replies.len(),
    decreases replies.len(),
{
    if replies.len() > 0 {
        law_attempts_are_bounded(replies.drop_last());
    }
}

/// A leg that has been taken on is never sent again.
pub proof fn law_placed_legs_are_not_resent(
    run: BracketRun,
    tp: Option<Vec<u8>>,
    sl: Option<Vec<u8>>,
)
    requires
        run.wf(),
        !run.finished(),
    ensures
        run.tp_placed || takes_on(tp) ==> (run.after(tp, sl).next_spec() matches BracketStep::Send {
            tp: send_tp,
            ..
        } ==> !send_tp),
        run.sl_placed || takes_on(sl) ==> (run.after(tp, sl).next_spec() matches BracketStep::Send {
            sl: send_sl,
            ..
        } ==> !send_sl),
{
}

/// The end of a run reports a leg as failed exactly if no reply took it on.
pub proof fn law_failures_are_reported(replies: Seq<(Option<Vec<u8>>, Option<Vec<u8>>)>)
    requires
        forall|k: int|
            0 <= k < replies.len() ==> !run_after(#[trigger] replies.take(k)).finished(),
    ensures
        run_after(replies).tp_placed <==> exists|i: int|
            0 <= i < replies.len() && takes_on((#[trigger] replies[i]).0),
        run_after(replies).sl_placed <==> exists|i: int|
            0 <= i < replies.len() && takes_on((#[trigger] replies[i]).1),
    decreases replies.len(),
{
    if replies.len() > 0 {
        let rest = replies.drop_last();
        assert forall|k: int| 0 <= k < rest.len() implies !run_after(
            #[trigger] rest.take(k),
        ).finished() by {
            assert(rest.take(k) =~= replies.take(k));
        }
        law_failures_are_reported(rest);
        assert(replies.take(replies.len() - 1) =~= rest);
        assert forall|i: int| 0 <= i < rest.len() implies rest[i] == replies[i] by {}
        if run_after(rest).tp_placed {
            let i = choose|i: int| 0 <= i < rest.len() && takes_on((#[trigger] rest[i]).0);
            assert(takes_on(replies[i].0));
        }
        if run_after(rest).sl_placed {
            let i = choose|i: int| 0 <= i < rest.len() && takes_on((#[trigger] rest[i]).1);
            assert(takes_on(replies[i].1));
        }
        let last = replies.len() - 1;
        assert(replies[last] == replies.last());
        if run_after(replies).tp_placed && !run_after(rest).tp_placed {
            assert(takes_on(replies[last].0));
        }
        if run_after(replies).sl_placed && !run_after(rest).sl_placed {
            assert(takes_on(replies[last].1));
        }
        if exists|i: int| 0 <= i < replies.len() && takes_on((#[trigger] replies[i]).0) {
            let i = choose|i: int| 0 <= i < replies.len() && takes_on((#[trigger] replies[i]).0);
            if i < last {
                assert(takes_on(rest[i].0));
            }
        }
        if exists|i: int| 0 <= i < replies.len() && takes_on((#[trigger] replies[i]).1) {
            let i = choose|i: int| 0 <= i < replies.len() && takes_on((#[trigger] replies[i]).1);
            if i < last {
                assert(takes_on(rest[i].1));
            }
        }
    }
}

} // verus!
