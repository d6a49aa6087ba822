//! Decisions of a fetch worker: retry budgets with an elapsed-time ceiling,
//! and the per-partition state machine (open a session, fetch each URL with
//! retries, pause between pages, close the session).
//!
//! The caller performs each action, measures how long a failed attempt took,
//! asks its backoff policy for the next delay, and reports back.

use vstd::prelude::*;

verus! {

/// Default ceiling on the time one retry loop may take, in milliseconds.
pub const RETRY_CEILING_MS: u64 = 60_000;

/// Time budget of one retry loop.
#[derive(Clone, Copy, Debug)]
pub struct RetryState {
    pub ceiling_ms: u64,
    pub elapsed_ms: u64,
    pub exhausted: bool,
}

/// What to do after a failed attempt.
#[derive(Clone, Copy, Debug, PartialEq, Eq)]
pub enum RetryDecision {
    Wait(u64),
    GiveUp,
}

pub open spec fn sat_add(a: u64, b: u64) -> u64 {
    if a + b > u64::MAX {
        u64::MAX
    } else {
        (a + b) as u64
    }
}

/// One failed attempt that took `spent_ms`, after which the backoff policy
/// proposed `proposed_ms` (or nothing). The loop gives up once it is
/// exhausted or once the time spent reaches the ceiling. Otherwise it waits:
/// the proposed delay, or, when the policy proposes nothing, the rest of the
/// budget. The wait counts as spent time.
pub open spec fn retry_step(s: RetryState, spent_ms: u64, proposed_ms: Option<u64>) -> (
    RetryState,
    RetryDecision,
) {
    let elapsed = sat_add(s.elapsed_ms, spent_ms);
    if s.exhausted {
        (s, RetryDecision::GiveUp)
    } else if elapsed >= s.ceiling_ms {
        (RetryState { elapsed_ms: elapsed, exhausted: true, ..s }, RetryDecision::GiveUp)
    } else {
        let d = match proposed_ms {
            Some(d) => d,
            None => (s.ceiling_ms - elapsed) as u64,
        };
        (RetryState { elapsed_ms: sat_add(elapsed, d), ..s }, RetryDecision::Wait(d))
    }
}

/// The state after a run of failed attempts, each given as
/// `(spent_ms, proposed_ms)`.
pub open spec fn retry_run(s: RetryState, events: Seq<(u64, Option<u64>)>) -> RetryState
    decreases events.len(),
{
    if events.len() == 0 {
        s
    } else {
        retry_run(retry_step(s, events[0].0, events[0].1).0, events.drop_first())
    }
}

/// A failed attempt that costs time: it took at least a millisecond, or the
/// policy proposed no delay (the rest of the budget is waited), or a delay
/// of at least a millisecond.
pub open spec fn makes_progress(e: (u64, Option<u64>)) -> bool {
    e.0 >= 1 || e.1 is None || (e.1 matches Some(d) && d >= 1)
}

/// A fresh budget.
pub open spec fn fresh_retry(ceiling_ms: u64) -> RetryState {
    RetryState { ceiling_ms, elapsed_ms: 0, exhausted: false }
}

impl RetryState {
    /// A fresh budget.
    pub fn new(ceiling_ms: u64) -> (r: RetryState)
        ensures
            r == fresh_retry(ceiling_ms),
    {
        RetryState { ceiling_ms, elapsed_ms: 0, exhausted: false }
    }

    /// Records a failed attempt and decides whether to wait and try again.
    pub fn on_failure(&mut self, spent_ms: u64, proposed_ms: Option<u64>) -> (d: RetryDecision)
        ensures
            (*final(self), d) == retry_step(*old(self), spent_ms, proposed_ms),
            d is GiveUp <==> final(self).exhausted,
            d is GiveUp && !old(self).exhausted ==> final(self).elapsed_ms >= final(self).ceiling_ms,
    {
        let elapsed = self.elapsed_ms.saturating_add(spent_ms);
        if self.exhausted {
            return RetryDecision::GiveUp;
        }
        self.elapsed_ms = elapsed;
        if elapsed >= self.ceiling_ms {
            self.exhausted = true;
            return RetryDecision::GiveUp;
        }
        let d = match proposed_ms {
            Some(d) => d,
            None => self.ceiling_ms - elapsed,
        };
        self.elapsed_ms = elapsed.saturating_add(d);
        RetryDecision::Wait(d)
    }
}

/// An exhausted budget stays exhausted.
pub proof fn lemma_exhausted_stays(s: RetryState, events: Seq<(u64, Option<u64>)>)
    requires
        s.exhausted,
    ensures
        retry_run(s, events) == s,
    decreases events.len(),
{
    if events.len() > 0 {
        lemma_exhausted_stays(retry_step(s, events[0].0, events[0].1).0, events.drop_first());
    }
}

proof fn lemma_run_bounded(s: RetryState, events: Seq<(u64, Option<u64>)>)
    requires
        !s.exhausted,
        events.len() > 0,
        forall|i: int| 0 <= i < events.len() ==> makes_progress(#[trigger] events[i]),
    ensures
        !retry_run(s, events).exhausted ==> s.elapsed_ms + events.len() <= s.ceiling_ms,
    decreases events.len(),
{
    let s1 = retry_step(s, events[0].0, events[0].1).0;
    let rest = events.drop_first();
    assert(makes_progress(events[0]));
    if s1.exhausted {
        lemma_exhausted_stays(s1, rest);
    } else if rest.len() > 0 {
        assert forall|i: int| 0 <= i < rest.len() implies makes_progress(#[trigger] rest[i]) by {
            assert(rest[i] == events[i + 1]);
        }
        lemma_run_bounded(s1, rest);
    }
}

/// A retry loop whose failed attempts each cost time never loops
/// indefinitely: starting from a fresh budget, more failures than the
/// ceiling has milliseconds always leave it exhausted.
pub proof fn lemma_retry_gives_up(ceiling_ms: u64, events: Seq<(u64, Option<u64>)>)
    requires
        events.len() > ceiling_ms,
        forall|i: int| 0 <= i < events.len() ==> makes_progress(#[trigger] events[i]),
    ensures
        retry_run(RetryState { ceiling_ms, elapsed_ms: 0, exhausted: false }, events).exhausted,
{
    lemma_run_bounded(RetryState { ceiling_ms, elapsed_ms: 0, exhausted: false }, events);
}

/// A retry loop gives up only once the time spent has reached the ceiling,
/// and it then reports exhaustion.
pub proof fn lemma_gives_up_at_ceiling(s: RetryState, spent_ms: u64, proposed_ms: Option<u64>)
    requires
        !s.exhausted,
        retry_step(s, spent_ms, proposed_ms).1 is GiveUp,
    ensures
        retry_step(s, spent_ms, proposed_ms).0.elapsed_ms >= s.ceiling_ms,
        retry_step(s, spent_ms, proposed_ms).0.exhausted,
{
}

/// A budget that has not yet reached its ceiling never gives up: the loop
/// waits, whatever the policy proposed.
pub proof fn lemma_waits_below_ceiling(s: RetryState, spent_ms: u64, proposed_ms: Option<u64>)
    requires
        !s.exhausted,
        sat_add(s.elapsed_ms, spent_ms) < s.ceiling_ms,
    ensures
        retry_step(s, spent_ms, proposed_ms).1 is Wait,
        !retry_step(s, spent_ms, proposed_ms).0.exhausted,
{
}

/// Where a worker stands in its cycle.
#[derive(Clone, Copy, Debug, PartialEq, Eq, Structural)]
pub enum WorkerPhase {
    Opening,
    Fetching,
    Closing,
    Done,
}

/// What the caller must do next.
#[derive(Debug)]
pub enum WorkerAction {
    OpenSession,
    Fetch(String),
    Sleep(u64),
    CloseSession,
    Finish,
}

/// One worker's walk through its partition of URLs.
pub struct FetchWorker {
    urls: Vec<String>,
    pos: usize,
    phase: WorkerPhase,
    pause_ms: Option<u64>,
    retry: RetryState,
}

/// Phase once the URL at `next` is the next to fetch.
pub open spec fn phase_at(next: int, len: int) -> WorkerPhase {
    if next < len {
        WorkerPhase::Fetching
    } else {
        WorkerPhase::Closing
    }
}

impl FetchWorker {
    /// The position stays within the partition, and points at a URL while
    /// fetching.
    pub closed spec fn wf(&self) -> bool {
        &&& self.pos <= self.urls@.len()
        &&& self.phase == WorkerPhase::Fetching ==> self.pos < self.urls@.len()
    }

    /// The partition, in fetch order.
    pub closed spec fn urls(&self) -> Seq<String> {
        self.urls@
    }

    /// Position of the URL being fetched, or of the next one.
    pub closed spec fn pos(&self) -> int {
        self.pos as int
    }

    pub closed spec fn phase(&self) -> WorkerPhase {
        self.phase
    }

    /// A pause the caller still has to sleep, if any.
    pub closed spec fn pause(&self) -> Option<u64> {
        self.pause_ms
    }

    /// The retry budget of the current operation.
    pub closed spec fn retry(&self) -> RetryState {
        self.retry
    }

    /// A worker for `urls` whose retry loops each have `ceiling_ms`.
    pub fn new(urls: Vec<String>, ceiling_ms: u64) -> (r: FetchWorker)
        ensures
            r.urls() == urls@,
            r.pos() == 0,
            r.phase() == WorkerPhase::Opening,
            r.pause() is None,
            r.retry() == fresh_retry(ceiling_ms),
            r.wf(),
    {
        FetchWorker {
            urls,
            pos: 0,
            phase: WorkerPhase::Opening,
            pause_ms: None,
            retry: RetryState::new(ceiling_ms),
        }
    }

    /// The next action: a pending pause first, then what the phase asks for.
    pub fn next_action(&self) -> (a: WorkerAction)
        requires
            self.wf(),
        ensures
            self.pause() matches Some(d) ==> a == WorkerAction::Sleep(d),
            self.pause() is None ==> match self.phase() {
                WorkerPhase::Opening => a == WorkerAction::OpenSession,
                WorkerPhase::Fetching => a matches WorkerAction::Fetch(u) && 0 <= self.pos() < self.urls().len()
                    && u@ == self.urls()[self.pos()]@,
                WorkerPhase::Closing => a == WorkerAction::CloseSession,
                WorkerPhase::Done => a == WorkerAction::Finish,
            },
    {
        if let Some(d) = self.pause_ms {
            return WorkerAction::Sleep(d);
        }
        match self.phase {
            WorkerPhase::Opening => WorkerAction::OpenSession,
            WorkerPhase::Fetching => WorkerAction::Fetch(self.urls[self.pos].clone()),
            WorkerPhase::Closing => WorkerAction::CloseSession,
            WorkerPhase::Done => WorkerAction::Finish,
        }
    }

    /// The session opened: fetching starts at the first URL with a fresh
    /// budget (or closing, for an empty partition).
    pub fn session_opened(&mut self)
        requires
            old(self).wf(),
        ensures
            final(self).wf(),
            final(self).urls() == old(self).urls(),
            old(self).phase() == WorkerPhase::Opening && old(self).pause() is None ==> {
                &&& final(self).pos() == 0
                &&& final(self).phase() == phase_at(0, old(self).urls().len() as int)
                &&& final(self).retry() == fresh_retry(old(self).retry().ceiling_ms)
                &&& final(self).pause() is None
            },
            !(old(self).phase() == WorkerPhase::Opening && old(self).pause() is None) ==> *final(self)
                == *old(self),
    {
        if self.phase == WorkerPhase::Opening && self.pause_ms.is_none() {
            let ceiling = self.retry.ceiling_ms;
            self.phase = if self.urls.len() > 0 {
                WorkerPhase::Fetching
            } else {
                WorkerPhase::Closing
            };
            self.pos = 0;
            self.retry = RetryState::new(ceiling);
        }
    }

    /// Moves past the current URL with a fresh budget.
    fn advance(&mut self, pause_ms: Option<u64>)
        requires
            old(self).wf(),
            old(self).phase == WorkerPhase::Fetching,
        ensures
            final(self).wf(),
            final(self).urls == old(self).urls,
            final(self).pos == old(self).pos + 1,
            final(self).phase == phase_at(old(self).pos + 1, old(self).urls@.len() as int),
            final(self).pause_ms == pause_ms,
            final(self).retry == fresh_retry(old(self).retry.ceiling_ms),
    {
        let ceiling = self.retry.ceiling_ms;
        let n = self.urls.len();
        self.pos = self.pos + 1;
        self.phase = if self.pos < n {
            WorkerPhase::Fetching
        } else {
            WorkerPhase::Closing
        };
        self.pause_ms = pause_ms;
        self.retry = RetryState::new(ceiling);
    }

    /// The current page was fetched and handled: move to the next URL after
    /// a pause of `pause_ms`.
    pub fn page_done(&mut self, pause_ms: u64)
        requires
            old(self).wf(),
        ensures
            final(self).wf(),
            final(self).urls() == old(self).urls(),
            old(self).phase() == WorkerPhase::Fetching && old(self).pause() is None ==> {
                &&& final(self).pos() == old(self).pos() + 1
                &&& final(self).phase() == phase_at(old(self).pos() + 1, old(self).urls().len() as int)
                &&& final(self).pause() == Some(pause_ms)
                &&& final(self).retry() == fresh_retry(old(self).retry().ceiling_ms)
            },
            !(old(self).phase() == WorkerPhase::Fetching && old(self).pause() is None) ==> *final(self)
                == *old(self),
    {
        if self.phase == WorkerPhase::Fetching && self.pause_ms.is_none() {
            self.advance(Some(pause_ms));
        }
    }

    /// The current attempt (opening the session, or fetching the current
    /// URL) failed after `spent_ms`, and the backoff policy proposed
    /// `proposed_ms`. A wait becomes a pause before the same attempt. Giving
    /// up while opening ends the worker with nothing fetched; giving up on a
    /// URL skips it.
    pub fn attempt_failed(&mut self, spent_ms: u64, proposed_ms: Option<u64>)
        requires
            old(self).wf(),
        ensures
            final(self).wf(),
            final(self).urls() == old(self).urls(),
            ({
                let active = (old(self).phase() == WorkerPhase::Opening || old(self).phase()
                    == WorkerPhase::Fetching) && old(self).pause() is None;
                let (r, d) = retry_step(old(self).retry(), spent_ms, proposed_ms);
                &&& !active ==> *final(self) == *old(self)
                &&& active ==> (d matches RetryDecision::Wait(w) ==> final(self).pause() == Some(w)
                    && final(self).retry() == r && final(self).pos() == old(self).pos()
                    && final(self).phase() == old(self).phase())
                &&& active && d is GiveUp && old(self).phase() == WorkerPhase::Opening
                    ==> final(self).phase() == WorkerPhase::Done && final(self).pause() is None
                    && final(self).pos() == old(self).pos()
                &&& active && d is GiveUp && old(self).phase() == WorkerPhase::Fetching
                    ==> final(self).pos() == old(self).pos() + 1 && final(self).phase() == phase_at(
                    old(self).pos() + 1,
                    old(self).urls().len() as int,
                ) && final(self).pause() is None && final(self).retry() == fresh_retry(
                    old(self).retry().ceiling_ms,
                )
            }),
    {
        let active = (self.phase == WorkerPhase::Opening || self.phase == WorkerPhase::Fetching)
            && self.pause_ms.is_none();
        if !active {
            return ;
        }
        let mut retry = self.retry;
        let decision = retry.on_failure(spent_ms, proposed_ms);
        match decision {
            RetryDecision::Wait(w) => {
                self.retry = retry;
                self.pause_ms = Some(w);
            },
            RetryDecision::GiveUp => {
                if self.phase == WorkerPhase::Opening {
                    self.retry = retry;
                    self.phase = WorkerPhase::Done;
                } else {
                    self.advance(None);
                }
            },
        }
    }

    /// The caller slept the pending pause.
    pub fn slept(&mut self)
        requires
            old(self).wf(),
        ensures
            final(self).wf(),
            final(self).pause() is None,
            final(self).urls() == old(self).urls(),
            final(self).pos() == old(self).pos(),
            final(self).phase() == old(self).phase(),
            final(self).retry() == old(self).retry(),
    {
        self.pause_ms = None;
    }

    /// The session was released (errors while releasing are ignored).
    pub fn session_closed(&mut self)
        requires
            old(self).wf(),
        ensures
            final(self).wf(),
            old(self).phase() == WorkerPhase::Closing && old(self).pause() is None ==> {
                &&& final(self).phase() == WorkerPhase::Done
                &&& final(self).pause() is None
                &&& final(self).urls() == old(self).urls()
                &&& final(self).pos() == old(self).pos()
                &&& final(self).retry() == old(self).retry()
            },
            !(old(self).phase() == WorkerPhase::Closing && old(self).pause() is None) ==> *final(self)
                == *old(self),
    {
        if self.phase == WorkerPhase::Closing && self.pause_ms.is_none() {
            self.phase = WorkerPhase::Done;
        }
    }

    /// Position of the URL being fetched, or of the next one.
    pub fn position(&self) -> (r: usize)
        ensures
            r == self.pos(),
    {
        self.pos
    }

    /// Whether the worker has finished.
    pub fn is_done(&self) -> (r: bool)
        ensures
            r == (self.phase() == WorkerPhase::Done),
    {
        self.phase == WorkerPhase::Done
    }
}

} // verus!
