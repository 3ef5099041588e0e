//! The command-delegation protocol: a delegated shell command takes the
//! terminal over for its lifetime, may be cancelled by an operator
//! interrupt, and must hand the terminal back exactly once, however it
//! ends. The protocol is a pure transition function; the caller performs
//! the effects it demands.

use vstd::prelude::*;

verus! {

/// Whether a delegated command is running, and whether the operator's
/// interrupt is trapped and forwarded to it.
#[derive(Clone, Copy, Debug, PartialEq, Eq, Structural)]
pub enum DelegationState {
    Idle,
    Active(bool),
}

/// What happened: a command was started (with or without interrupt
/// trapping), the operator sent a cancellation, or the child exited.
#[derive(Clone, Copy, Debug, PartialEq, Eq, Structural)]
pub enum DelegationEvent {
    Begin(bool),
    Cancel,
    ChildExit,
}

/// What the caller must do: hand the real terminal to the child, forward
/// a termination signal to the child's process group, restore the
/// terminal state, or nothing.
#[derive(Clone, Copy, Debug, PartialEq, Eq, Structural)]
pub enum DelegationEffect {
    ReleaseTerminal,
    SignalChild,
    RestoreTerminal,
    NoEffect,
}

/// The transition function. A command begins only from idle and releases
/// the terminal; cancellation signals the child only while one runs with
/// trapping on, and changes no state (the child's exit does); the child's
/// exit restores the terminal and returns to idle.
pub open spec fn delegation_spec(st: DelegationState, ev: DelegationEvent) -> (
    DelegationState,
    DelegationEffect,
) {
    match (st, ev) {
        (DelegationState::Idle, DelegationEvent::Begin(trap)) => (
            DelegationState::Active(trap),
            DelegationEffect::ReleaseTerminal,
        ),
        (DelegationState::Active(trap), DelegationEvent::Cancel) => (
            DelegationState::Active(trap),
            if trap {
                DelegationEffect::SignalChild
            } else {
                DelegationEffect::NoEffect
            },
        ),
        (DelegationState::Active(_), DelegationEvent::ChildExit) => (
            DelegationState::Idle,
            DelegationEffect::RestoreTerminal,
        ),
        _ => (st, DelegationEffect::NoEffect),
    }
}

/// One step of the protocol, as `delegation_spec` states.
pub fn delegation_step(st: DelegationState, ev: DelegationEvent) -> (r: (
    DelegationState,
    DelegationEffect,
))
    ensures
        r == delegation_spec(st, ev),
{
    match (st, ev) {
        (DelegationState::Idle, DelegationEvent::Begin(trap)) => (
            DelegationState::Active(trap),
            DelegationEffect::ReleaseTerminal,
        ),
        (DelegationState::Active(trap), DelegationEvent::Cancel) => (
            DelegationState::Active(trap),
            if trap {
                DelegationEffect::SignalChild
            } else {
                DelegationEffect::NoEffect
            },
        ),
        (DelegationState::Active(_), DelegationEvent::ChildExit) => (
            DelegationState::Idle,
            DelegationEffect::RestoreTerminal,
        ),
        _ => (st, DelegationEffect::NoEffect),
    }
}

/// The state after a sequence of events.
pub open spec fn run_delegation(st: DelegationState, evs: Seq<DelegationEvent>) -> DelegationState
    decreases evs.len(),
{
    if evs.len() == 0 {
        st
    } else {
        run_delegation(delegation_spec(st, evs[0]).0, evs.drop_first())
    }
}

/// Terminal releases minus terminal restorations over a sequence of
/// events.
pub open spec fn release_balance(st: DelegationState, evs: Seq<DelegationEvent>) -> int
    decreases evs.len(),
{
    if evs.len() == 0 {
        0int
    } else {
        let eff = delegation_spec(st, evs[0]).1;
        (if eff == DelegationEffect::ReleaseTerminal {
            1int
        } else if eff == DelegationEffect::RestoreTerminal {
            -1int
        } else {
            0int
        }) + release_balance(delegation_spec(st, evs[0]).0, evs.drop_first())
    }
}

/// How many terminal handovers the state holds open: one while a command
/// runs, none while idle.
pub open spec fn held(st: DelegationState) -> int {
    match st {
        DelegationState::Idle => 0int,
        DelegationState::Active(_) => 1int,
    }
}

/// Teardown matches setup one for one: over any sequence of events —
/// cancellations and abnormal orderings included — the terminal is
/// released exactly as often as it is restored, plus one exactly when a
/// command is still running at the end. In particular a run that starts
/// idle and ends idle restores the terminal exactly as often as it
/// released it.
pub proof fn lemma_delegation_teardown(st: DelegationState, evs: Seq<DelegationEvent>)
    ensures
        release_balance(st, evs) == held(run_delegation(st, evs)) - held(st),
    decreases evs.len(),
{
    if evs.len() > 0 {
        lemma_delegation_teardown(delegation_spec(st, evs[0]).0, evs.drop_first());
    }
}

/// At no point of a run that starts idle is the terminal restored without
/// a matching release, or released a second time before being restored:
/// after any prefix of the events the balance is zero or one.
pub proof fn lemma_delegation_prefix_safe(evs: Seq<DelegationEvent>, i: int)
    requires
        0 <= i <= evs.len(),
    ensures
        0 <= release_balance(DelegationState::Idle, evs.take(i)) <= 1,
{
    lemma_delegation_teardown(DelegationState::Idle, evs.take(i));
}

} // verus!
