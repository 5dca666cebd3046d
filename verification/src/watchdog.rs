use vstd::prelude::*;

verus! {

/// How long an evaluation may run before it is cancelled, in milliseconds.
pub const TIMEOUT_MILLIS: u64 = 10000;

/// How long the plugin sleeps between two looks at a running evaluation, in
/// milliseconds.
pub const POLLING_STEPS_MILLIS: u64 = 10;

/// How many times the plugin sleeps and looks before it gives up.
pub const MAX_POLLS: u64 = TIMEOUT_MILLIS / POLLING_STEPS_MILLIS;

/// What to do after a look at the evaluation.
#[derive(PartialEq, Eq, Structural, Debug, Clone, Copy)]
pub enum WaitAction {
    /// Sleep another polling step and look again.
    KeepWaiting,
    /// Stop waiting and make the final check.
    StopWaiting,
}

/// How an evaluation ended, by the final check.
#[derive(PartialEq, Eq, Structural, Debug, Clone, Copy)]
pub enum RunOutcome {
    /// The evaluation finished: join its thread.
    Finished,
    /// The evaluation still runs: cancel it, reset the interpreter and tell
    /// the user.
    TimedOut,
}

/// Polls counted after one more look.
pub open spec fn next_polls(polls: nat) -> nat {
    if polls + 1 < MAX_POLLS {
        polls + 1
    } else {
        MAX_POLLS as nat
    }
}

/// Whether the waiting stops after a look that found the evaluation
/// `running`, with `polls` polling steps slept in all.
pub open spec fn stops(polls: nat, running: bool) -> bool {
    !running || polls == MAX_POLLS
}

/// The number of polling steps slept by a wait that starts after `polls`
/// steps and sees the running flag take the values `looks`, one per look,
/// until it stops (or the looks run out).
pub open spec fn steps_slept(polls: nat, looks: Seq<bool>) -> nat
    decreases looks.len(),
{
    if looks.len() == 0 {
        0
    } else if stops(next_polls(polls), looks[0]) {
        1
    } else {
        1 + steps_slept(next_polls(polls), looks.drop_first())
    }
}

/// Counts the polling steps of one evaluation.
pub struct Watchdog {
    polls: u64,
}

impl Watchdog {
    /// Polling steps slept so far.
    pub closed spec fn polls(self) -> nat {
        self.polls as nat
    }

    #[verifier::type_invariant]
    spec fn inv(self) -> bool {
        self.polls <= MAX_POLLS
    }

    /// A watchdog for an evaluation that was just started.
    pub fn new() -> (res: Watchdog)
        ensures
            res.polls() == 0,
    {
        Watchdog { polls: 0 }
    }

    /// Called after each polling step with what the running flag showed:
    /// counts the step and says whether to keep waiting. Waiting stops as
    /// soon as the evaluation has finished, or once the timeout is reached.
    pub fn after_poll(&mut self, running: bool) -> (res: WaitAction)
        ensures
            final(self).polls() == next_polls(old(self).polls()),
            res == WaitAction::StopWaiting <==> stops(final(self).polls(), running),
    {
        proof {
            use_type_invariant(&*self);
        }
        if self.polls < MAX_POLLS {
            self.polls = self.polls + 1;
        }
        if !running || self.polls == MAX_POLLS {
            WaitAction::StopWaiting
        } else {
            WaitAction::KeepWaiting
        }
    }

    /// Time slept so far, in milliseconds; never more than the timeout.
    pub fn waited_millis(&self) -> (res: u64)
        ensures
            res == self.polls() * POLLING_STEPS_MILLIS,
            res <= TIMEOUT_MILLIS,
    {
        proof {
            use_type_invariant(self);
        }
        self.polls * POLLING_STEPS_MILLIS
    }
}

/// The final check, made once the waiting stopped: an evaluation that still
/// runs has timed out.
pub fn conclude(running: bool) -> (res: RunOutcome)
    ensures
        res == RunOutcome::TimedOut <==> running,
{
    if running {
        RunOutcome::TimedOut
    } else {
        RunOutcome::Finished
    }
}

/// Each look counts one polling step, up to the limit; a look that finds
/// the evaluation finished always stops the wait, and a look that finds it
/// running stops the wait only once the limit is reached.
pub proof fn lemma_poll_step(polls: nat, running: bool)
    requires
        polls < MAX_POLLS,
    ensures
        next_polls(polls) == polls + 1,
        !running ==> stops(next_polls(polls), running),
        running ==> (stops(next_polls(polls), running) <==> polls + 1 == MAX_POLLS),
{
}

/// The plugin never waits longer than the timeout: whatever the running flag
/// shows, the wait stops after at most `MAX_POLLS` polling steps.
pub proof fn lemma_wait_is_bounded(polls: nat, looks: Seq<bool>)
    requires
        polls < MAX_POLLS,
    ensures
        steps_slept(polls, looks) <= MAX_POLLS - polls,
        steps_slept(polls, looks) * POLLING_STEPS_MILLIS <= TIMEOUT_MILLIS,
    decreases looks.len(),
{
    if looks.len() > 0 && !stops(next_polls(polls), looks[0]) {
        lemma_wait_is_bounded(next_polls(polls), looks.drop_first());
    }
    assert(steps_slept(polls, looks) * POLLING_STEPS_MILLIS <= MAX_POLLS * POLLING_STEPS_MILLIS)
        by (nonlinear_arith)
        requires
            steps_slept(polls, looks) <= MAX_POLLS,
    ;
}

/// A finished evaluation is noticed at the first look after it ends: if the
/// flag first shows "not running" at look `k`, within the timeout, the wait
/// lasts exactly `k + 1` polling steps.
pub proof fn lemma_finish_is_noticed(looks: Seq<bool>, k: int)
    requires
        0 <= k < looks.len(),
        k + 1 < MAX_POLLS,
        !looks[k],
        forall|j: int| 0 <= j < k ==> looks[j],
    ensures
        steps_slept(0, looks) == k + 1,
{
    lemma_finish_is_noticed_from(0, looks, k);
}

proof fn lemma_finish_is_noticed_from(polls: nat, looks: Seq<bool>, k: int)
    requires
        0 <= k < looks.len(),
        polls + k + 1 < MAX_POLLS,
        !looks[k],
        forall|j: int| 0 <= j < k ==> looks[j],
    ensures
        steps_slept(polls, looks) == k + 1,
    decreases k,
{
    if k > 0 {
        assert(looks[0]);
        let rest = looks.drop_first();
        assert forall|j: int| 0 <= j < k - 1 implies rest[j] by {
            assert(rest[j] == looks[j + 1]);
        }
        assert(rest[k - 1] == looks[k]);
        lemma_finish_is_noticed_from(next_polls(polls), rest, k - 1);
    }
}

/// An evaluation that never finishes is given up after exactly `MAX_POLLS`
/// polling steps, the whole timeout.
pub proof fn lemma_endless_run_times_out(looks: Seq<bool>)
    requires
        looks.len() >= MAX_POLLS,
        forall|j: int| 0 <= j < looks.len() ==> looks[j],
    ensures
        steps_slept(0, looks) == MAX_POLLS,
{
    lemma_endless_from(0, looks);
}

proof fn lemma_endless_from(polls: nat, looks: Seq<bool>)
    requires
        polls < MAX_POLLS,
        looks.len() >= MAX_POLLS - polls,
        forall|j: int| 0 <= j < looks.len() ==> looks[j],
    ensures
        steps_slept(polls, looks) == MAX_POLLS - polls,
    decreases MAX_POLLS - polls,
{
    if polls + 1 < MAX_POLLS {
        let rest = looks.drop_first();
        assert forall|j: int| 0 <= j < rest.len() implies rest[j] by {
            assert(rest[j] == looks[j + 1]);
        }
        lemma_endless_from(polls + 1, rest);
    }
}

} // verus!
