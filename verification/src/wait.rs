//! Waiting to become the new instance.
//!
//! While another instance owns the name, a process that insists on
//! becoming the listener tries again and again, sleeping between the
//! attempts, until the name falls free or its patience runs out.
//!
//! The attempts, the sleep and the clock are the caller's. A [`Waiter`]
//! decides what each attempt leads to ([`Waiter::on_attempt`]) and whether
//! the time is up after a sleep ([`Waiter::on_wake`]).

use crate::resolve::Endpoint;
use vstd::prelude::*;

verus! {

/// The terms of a wait.
#[derive(Debug, Clone, Copy, PartialEq, Eq)]
pub struct Waiter {
    /// How long to sleep after an attempt that found an existing instance,
    /// in milliseconds.
    pub sleep_ms: u64,
    /// How much time may pass since the start of the wait, in
    /// milliseconds.
    pub timeout_ms: u64,
}

/// What an attempt leads to.
#[derive(Debug, PartialEq, Eq)]
pub enum Round<L, E> {
    /// The attempt made this process the new instance: the wait is over.
    New(L),
    /// The attempt failed: the wait is over, and the failure is the
    /// caller's to report.
    Failed(E),
    /// Another instance is still there: sleep this many milliseconds, then
    /// look at the clock.
    Sleep(u64),
}

/// How a wait ends.
#[derive(Debug, PartialEq, Eq)]
pub enum Waited<L, E> {
    /// As the new instance, with its listener.
    New(L),
    /// With the failure of an attempt.
    Failed(E),
    /// Out of time.
    TimedOut,
}

/// One turn of a wait as it unfolds: the outcome of the attempt, and what
/// the clock shows after the sleep that follows it, in milliseconds since
/// the start of the wait.
pub struct Turn<L, S, E> {
    pub attempt: Result<Endpoint<L, S>, E>,
    pub elapsed_ms: u128,
}

impl Waiter {
    /// What an attempt leads to. Only an attempt that yields a listener
    /// ends the wait well. An existing instance means sleeping, and its
    /// connection is let go unused. A failure ends the wait at once.
    pub open spec fn spec_on_attempt<L, S, E>(self, attempt: Result<Endpoint<L, S>, E>) -> Round<
        L,
        E,
    > {
        match attempt {
            Ok(Endpoint::New(listener)) => Round::New(listener),
            Ok(Endpoint::Existing(_)) => Round::Sleep(self.sleep_ms),
            Err(error) => Round::Failed(error),
        }
    }

    /// Whether the time is up: more has passed than the timeout allows.
    pub open spec fn expired(self, elapsed_ms: u128) -> bool {
        elapsed_ms > self.timeout_ms
    }

    /// Whether the wait goes on after `turn`: the attempt found an
    /// existing instance, and the time was not up after the sleep.
    pub open spec fn goes_on<L, S, E>(self, turn: Turn<L, S, E>) -> bool {
        self.spec_on_attempt(turn.attempt) is Sleep && !self.expired(turn.elapsed_ms)
    }

    /// Whether the wait goes on after every one of `turns`.
    pub open spec fn kept_waiting<L, S, E>(self, turns: Seq<Turn<L, S, E>>) -> bool {
        forall|j: int| 0 <= j < turns.len() ==> self.goes_on(#[trigger] turns[j])
    }

    /// How a wait ends with a turn after which it does not go on.
    pub open spec fn ending<L, S, E>(self, turn: Turn<L, S, E>) -> Waited<L, E> {
        match self.spec_on_attempt(turn.attempt) {
            Round::New(listener) => Waited::New(listener),
            Round::Failed(error) => Waited::Failed(error),
            Round::Sleep(_) => Waited::TimedOut,
        }
    }

    /// How a wait ends that unfolds as `turns` tell, or `None` where it is
    /// still going on after the last of them.
    pub open spec fn outcome<L, S, E>(self, turns: Seq<Turn<L, S, E>>) -> Option<Waited<L, E>>
        decreases turns.len(),
    {
        if turns.len() == 0 {
            None
        } else if self.goes_on(turns[0]) {
            self.outcome(turns.drop_first())
        } else {
            Some(self.ending(turns[0]))
        }
    }

    /// Sets the terms of a wait.
    pub fn new(sleep_ms: u64, timeout_ms: u64) -> (waiter: Waiter)
        ensures
            waiter.sleep_ms == sleep_ms,
            waiter.timeout_ms == timeout_ms,
    {
        Waiter { sleep_ms, timeout_ms }
    }

    /// Takes the outcome of an attempt and says what it leads to.
    pub fn on_attempt<L, S, E>(&self, attempt: Result<Endpoint<L, S>, E>) -> (round: Round<L, E>)
        ensures
            round == self.spec_on_attempt(attempt),
    {
        match attempt {
            Ok(Endpoint::New(listener)) => Round::New(listener),
            Ok(Endpoint::Existing(_)) => Round::Sleep(self.sleep_ms),
            Err(error) => Round::Failed(error),
        }
    }

    /// Takes the time that has passed since the start of the wait, read
    /// after a sleep, and says whether the wait has timed out.
    pub fn on_wake(&self, elapsed_ms: u128) -> (timed_out: bool)
        ensures
            timed_out == self.expired(elapsed_ms),
    {
        elapsed_ms > self.timeout_ms as u128
    }
}

/// While every turn goes on, the wait does, and the other way round.
pub proof fn lemma_still_waiting<L, S, E>(waiter: Waiter, turns: Seq<Turn<L, S, E>>)
    ensures
        waiter.outcome(turns) is None <==> waiter.kept_waiting(turns),
    decreases turns.len(),
{
    if turns.len() > 0 {
        let rest = turns.drop_first();
        lemma_still_waiting(waiter, rest);
        if waiter.goes_on(turns[0]) {
            if waiter.kept_waiting(rest) {
                assert forall|j: int| 0 <= j < turns.len() implies waiter.goes_on(
                    #[trigger] turns[j],
                ) by {
                    if j > 0 {
                        assert(turns[j] == rest[j - 1]);
                    }
                }
            }
            if waiter.kept_waiting(turns) {
                assert forall|j: int| 0 <= j < rest.len() implies waiter.goes_on(
                    #[trigger] rest[j],
                ) by {
                    assert(rest[j] == turns[j + 1]);
                }
            }
        }
    }
}

/// The first turn that does not go on ends the wait, in its own
/// way: nothing that comes later is looked at.
pub proof fn lemma_first_end_decides<L, S, E>(waiter: Waiter, turns: Seq<Turn<L, S, E>>, i: int)
    requires
        0 <= i < turns.len(),
        waiter.kept_waiting(turns.take(i)),
        !waiter.goes_on(turns[i]),
    ensures
        waiter.outcome(turns) == Some(waiter.ending(turns[i])),
    decreases i,
{
    if i > 0 {
        let rest = turns.drop_first();
        assert(turns.take(i)[0] == turns[0]);
        assert(rest.take(i - 1) == turns.take(i).drop_first());
        assert forall|j: int| 0 <= j < i - 1 implies waiter.goes_on(
            #[trigger] rest.take(i - 1)[j],
        ) by {
            assert(rest.take(i - 1)[j] == turns.take(i)[j + 1]);
        }
        assert(rest[i - 1] == turns[i]);
        lemma_first_end_decides(waiter, rest, i - 1);
    }
}

/// No false New: a wait ends as the new instance only with the listener
/// that one of its own attempts yielded.
pub proof fn lemma_new_is_earned<L, S, E>(waiter: Waiter, turns: Seq<Turn<L, S, E>>, listener: L)
    requires
        waiter.outcome(turns) == Some(Waited::<L, E>::New(listener)),
    ensures
        exists|i: int|
            0 <= i < turns.len() && (#[trigger] turns[i]).attempt == Ok::<Endpoint<L, S>, E>(
                Endpoint::New(listener),
            ),
    decreases turns.len(),
{
    if turns[0].attempt != Ok::<Endpoint<L, S>, E>(Endpoint::New(listener)) {
        let rest = turns.drop_first();
        lemma_new_is_earned(waiter, rest, listener);
        let i = choose|i: int|
            0 <= i < rest.len() && (#[trigger] rest[i]).attempt == Ok::<Endpoint<L, S>, E>(
                Endpoint::New(listener),
            );
        assert(turns[i + 1] == rest[i]);
    }
}

/// Against an instance that stays alive, so that every attempt finds it,
/// a wait does not end before the clock is seen to have passed the
/// timeout, and then it ends timed out: never as the new instance.
pub proof fn lemma_timeout<L, S, E>(waiter: Waiter, turns: Seq<Turn<L, S, E>>)
    requires
        forall|j: int|
            0 <= j < turns.len() ==> (#[trigger] turns[j]).attempt matches Ok(
                Endpoint::Existing(_),
            ),
    ensures
        waiter.outcome(turns) == (if exists|j: int|
            0 <= j < turns.len() && waiter.expired((#[trigger] turns[j]).elapsed_ms) {
            Some(Waited::<L, E>::TimedOut)
        } else {
            None
        }),
    decreases turns.len(),
{
    if turns.len() > 0 {
        let rest = turns.drop_first();
        assert forall|j: int| 0 <= j < rest.len() implies (#[trigger] rest[j]).attempt matches Ok(
            Endpoint::Existing(_),
        ) by {
            assert(rest[j] == turns[j + 1]);
        }
        lemma_timeout(waiter, rest);
        if !waiter.expired(turns[0].elapsed_ms) {
            if exists|j: int|
                0 <= j < turns.len() && waiter.expired((#[trigger] turns[j]).elapsed_ms) {
                let j = choose|j: int|
                    0 <= j < turns.len() && waiter.expired((#[trigger] turns[j]).elapsed_ms);
                assert(rest[j - 1] == turns[j]);
            }
            if exists|j: int|
                0 <= j < rest.len() && waiter.expired((#[trigger] rest[j]).elapsed_ms) {
                let j = choose|j: int|
                    0 <= j < rest.len() && waiter.expired((#[trigger] rest[j]).elapsed_ms);
                assert(turns[j + 1] == rest[j]);
            }
        }
    }
}

} // verus!
