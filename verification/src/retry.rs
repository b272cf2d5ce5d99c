//! Delivery with retry.
//!
//! A delivery is attempted up to three times, with a fixed pause between two
//! attempts, and ends with the first success or with the last failure. Every
//! failure is retried alike, whatever its cause.
//!
//! Making an attempt and pausing are the caller's work. [`Retry`] counts the
//! attempts and decides after each one whether the delivery ends or another
//! attempt follows.

use vstd::prelude::*;

verus! {

/// The number of attempts that a delivery is given.
pub const MAX_ATTEMPTS: u32 = 3;

/// Milliseconds between the end of a failed attempt and the next attempt.
pub const WAIT_TIME_MS: u64 = 1000;

/// Seconds after which a single request is given up.
pub const REQUEST_TIMEOUT_SECS: u64 = 30;

/// Whether a webhook that answers with `status` has taken the delivery: it
/// has where the status lies in the two hundreds, and in no other case.
pub open spec fn is_delivered(status: u16) -> bool {
    200 <= status < 300
}

/// The result of an attempt that the webhook answered with `status`: a
/// success where the webhook has taken the delivery, else a failure that
/// carries the status.
pub fn attempt_result(status: u16) -> (result: Result<(), u16>)
    ensures
        result is Ok <==> is_delivered(status),
        result matches Err(refused) ==> refused == status,
{
    if 200 <= status && status < 300 {
        Ok(())
    } else {
        Err(status)
    }
}

/// What follows an attempt.
#[derive(Debug, PartialEq, Eq)]
pub enum RetryStep<T, E> {
    /// The delivery has ended, with this result.
    Finished(Result<T, E>),
    /// Another attempt follows, after a pause of this many milliseconds.
    Again { wait_ms: u64 },
}

/// The state of a delivery, as the rules see it.
pub struct RetryView {
    /// Number of attempts made.
    pub attempts: nat,
    /// Whether the delivery has ended.
    pub finished: bool,
    /// Whether the delivery has ended with a success.
    pub succeeded: bool,
}

impl RetryView {
    /// The state before the first attempt.
    pub open spec fn start() -> RetryView {
        RetryView { attempts: 0, finished: false, succeeded: false }
    }

    /// The states that a delivery can be in.
    pub open spec fn wf(self) -> bool {
        &&& self.attempts <= MAX_ATTEMPTS
        &&& self.succeeded ==> self.finished
        &&& self.finished ==> self.attempts >= 1
        &&& !self.finished ==> self.attempts < MAX_ATTEMPTS
        &&& (self.finished && !self.succeeded) ==> self.attempts == MAX_ATTEMPTS
    }

    /// The state after an attempt that succeeded or failed. Once the delivery
    /// has ended, nothing changes it.
    pub open spec fn after_attempt(self, success: bool) -> RetryView {
        if self.finished {
            self
        } else if success {
            RetryView { attempts: self.attempts + 1, finished: true, succeeded: true }
        } else {
            RetryView {
                attempts: self.attempts + 1,
                finished: self.attempts + 1 >= MAX_ATTEMPTS,
                succeeded: false,
            }
        }
    }

    /// The state after the attempts whose results are `outcomes`, in order;
    /// `true` stands for a success.
    pub open spec fn after(self, outcomes: Seq<bool>) -> RetryView
        decreases outcomes.len(),
    {
        if outcomes.len() == 0 {
            self
        } else {
            self.after_attempt(outcomes.first()).after(outcomes.drop_first())
        }
    }
}

/// Whatever the attempts bring, a delivery makes at most three of them.
pub proof fn lemma_at_most_three_attempts(state: RetryView, outcomes: Seq<bool>)
    requires
        state.wf(),
    ensures
        state.after(outcomes).wf(),
        state.after(outcomes).attempts <= MAX_ATTEMPTS,
        state.after(outcomes).attempts >= state.attempts,
    decreases outcomes.len(),
{
    if outcomes.len() > 0 {
        lemma_at_most_three_attempts(state.after_attempt(outcomes.first()), outcomes.drop_first());
    }
}

/// Once a delivery has ended, no further attempt is counted.
pub proof fn lemma_finished_stays(state: RetryView, outcomes: Seq<bool>)
    requires
        state.finished,
    ensures
        state.after(outcomes) == state,
    decreases outcomes.len(),
{
    if outcomes.len() > 0 {
        lemma_finished_stays(state, outcomes.drop_first());
    }
}

/// A delivery whose first success comes at the attempt with index `first`,
/// counted from zero and below three, ends with that attempt and with a
/// success: it has then made `first + 1` attempts, and makes no more whatever
/// the endpoint would answer later.
pub proof fn lemma_ends_at_first_success(outcomes: Seq<bool>, first: nat)
    requires
        first < MAX_ATTEMPTS,
        first < outcomes.len(),
        outcomes[first as int],
        forall|i: int| 0 <= i < first ==> !outcomes[i],
    ensures
        RetryView::start().after(outcomes).finished,
        RetryView::start().after(outcomes).succeeded,
        RetryView::start().after(outcomes).attempts == first + 1,
{
    let s0 = RetryView::start();
    let o1 = outcomes.drop_first();
    let s1 = s0.after_attempt(outcomes[0]);
    assert(s0.after(outcomes) == s1.after(o1));
    if first == 0 {
        lemma_finished_stays(s1, o1);
    } else {
        let o2 = o1.drop_first();
        let s2 = s1.after_attempt(o1[0]);
        assert(o1[0] == outcomes[1]);
        assert(s1.after(o1) == s2.after(o2));
        if first == 1 {
            lemma_finished_stays(s2, o2);
        } else {
            let o3 = o2.drop_first();
            let s3 = s2.after_attempt(o2[0]);
            assert(o2[0] == outcomes[2]);
            assert(s2.after(o2) == s3.after(o3));
            lemma_finished_stays(s3, o3);
        }
    }
}

/// A delivery whose first three attempts all fail ends with the third, and
/// with a failure: it has made exactly three attempts, and makes no more.
pub proof fn lemma_gives_up_after_three_failures(outcomes: Seq<bool>)
    requires
        outcomes.len() >= MAX_ATTEMPTS,
        forall|i: int| 0 <= i < MAX_ATTEMPTS ==> !outcomes[i],
    ensures
        RetryView::start().after(outcomes).finished,
        !RetryView::start().after(outcomes).succeeded,
        RetryView::start().after(outcomes).attempts == MAX_ATTEMPTS,
{
    let s0 = RetryView::start();
    let o1 = outcomes.drop_first();
    let s1 = s0.after_attempt(outcomes[0]);
    assert(s0.after(outcomes) == s1.after(o1));
    let o2 = o1.drop_first();
    let s2 = s1.after_attempt(o1[0]);
    assert(o1[0] == outcomes[1]);
    assert(s1.after(o1) == s2.after(o2));
    let o3 = o2.drop_first();
    let s3 = s2.after_attempt(o2[0]);
    assert(o2[0] == outcomes[2]);
    assert(s2.after(o2) == s3.after(o3));
    lemma_finished_stays(s3, o3);
}

/// What follows an attempt with the result `outcome`, made in `state`.
pub open spec fn step_after<T, E>(state: RetryView, outcome: Result<T, E>) -> RetryStep<T, E> {
    if state.after_attempt(outcome is Ok).finished {
        RetryStep::Finished(outcome)
    } else {
        RetryStep::Again { wait_ms: WAIT_TIME_MS }
    }
}

/// One delivery: the count of its attempts and whether it has ended.
pub struct Retry {
    attempts: u32,
    finished: bool,
    succeeded: bool,
}

impl View for Retry {
    type V = RetryView;

    closed spec fn view(&self) -> RetryView {
        RetryView {
            attempts: self.attempts as nat,
            finished: self.finished,
            succeeded: self.succeeded,
        }
    }
}

impl Retry {
    /// A delivery of which no attempt was made yet.
    pub fn new() -> (retry: Retry)
        ensures
            retry@ == RetryView::start(),
            retry@.wf(),
    {
        Retry { attempts: 0, finished: false, succeeded: false }
    }

    /// Takes the result of an attempt and says what follows: the delivery ends
    /// with that result where it is a success or where the attempt was the
    /// third; else another attempt follows after the pause. Once the delivery
    /// has ended, a further result is handed back and changes nothing.
    pub fn record<T, E>(&mut self, outcome: Result<T, E>) -> (step: RetryStep<T, E>)
        requires
            old(self)@.wf(),
        ensures
            final(self)@.wf(),
            final(self)@ == old(self)@.after_attempt(outcome is Ok),
            step == step_after(old(self)@, outcome),
    {
        if self.finished {
            return RetryStep::Finished(outcome);
        }
        self.attempts = self.attempts + 1;
        match outcome {
            Ok(value) => {
                self.finished = true;
                self.succeeded = true;
                RetryStep::Finished(Ok(value))
            },
            Err(error) => {
                if self.attempts >= MAX_ATTEMPTS {
                    self.finished = true;
                    RetryStep::Finished(Err(error))
                } else {
                    RetryStep::Again { wait_ms: WAIT_TIME_MS }
                }
            },
        }
    }

    /// The number of attempts made.
    pub fn attempts(&self) -> (attempts: u32)
        ensures
            attempts == self@.attempts,
    {
        self.attempts
    }

    /// Whether the delivery has ended.
    pub fn is_finished(&self) -> (finished: bool)
        ensures
            finished == self@.finished,
    {
        self.finished
    }
}

} // verus!
