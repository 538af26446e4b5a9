//! The per-round synchronisation protocol as a pure transition function.
//!
//! The caller polls the remote source, performs each returned action and
//! hands the outcome back as the next event; the machine decides when to take
//! the full snapshot, when a race makes the round untrustworthy, and when a
//! round is resolved and can be recorded.
use vstd::prelude::*;
use crate::decimal::{decimal_below, parse_decimal};
use crate::snapshot::{is_locked, locked_marker, Snapshot};

verus! {

/// A round whose winner was observed, with the snapshot taken at lock time.
pub struct ResolvedRound {
    pub snapshot: Snapshot,
    /// Wall-clock seconds since the epoch at which the snapshot was accepted.
    pub timestamp: u64,
    /// The side that the status reported as the winner.
    pub winning_side: u64,
}

pub enum RoundState {
    /// Polling the status until it reads locked.
    AwaitingLock,
    /// Lock observed; the full snapshot was requested.
    AwaitingSnapshot,
    /// A locked snapshot is held; polling the status for the winner.
    AwaitingResolution { snapshot: Snapshot, timestamp: u64 },
    /// The round was handed out for recording.
    Resolved,
}

pub enum Event {
    /// The phase value read by a status poll.
    Status { phase: String },
    /// The full snapshot, with the wall-clock seconds at its arrival.
    Snapshot { snapshot: Snapshot, now: u64 },
    /// The resolved round was recorded.
    Recorded,
}

pub enum Action {
    /// Wait the poll interval, then poll the status.
    PollStatusLater,
    /// Poll the status at once.
    PollStatus,
    /// Fetch the full snapshot.
    FetchSnapshot,
    /// A race was detected: the round in flight is dropped; poll the status at once.
    Restart,
    /// Record the resolved round, then report `Event::Recorded`.
    Record { round: ResolvedRound },
}

/// The transition table of the protocol. An event that the state does not
/// expect drops whatever is in flight, as a detected race does.
pub open spec fn next(state: RoundState, event: Event) -> (RoundState, Action) {
    match state {
        RoundState::AwaitingLock => match event {
            Event::Status { phase } => if phase@ == locked_marker() {
                (RoundState::AwaitingSnapshot, Action::FetchSnapshot)
            } else {
                (RoundState::AwaitingLock, Action::PollStatusLater)
            },
            _ => (RoundState::AwaitingLock, Action::Restart),
        },
        RoundState::AwaitingSnapshot => match event {
            Event::Snapshot { snapshot, now } => if snapshot.status@ == locked_marker() {
                (RoundState::AwaitingResolution { snapshot, timestamp: now }, Action::PollStatus)
            } else {
                (RoundState::AwaitingLock, Action::Restart)
            },
            _ => (RoundState::AwaitingLock, Action::Restart),
        },
        RoundState::AwaitingResolution { snapshot, timestamp } => match event {
            Event::Status { phase } => match decimal_below(phase@, u64::MAX as nat) {
                Some(side) => (
                    RoundState::Resolved,
                    Action::Record {
                        round: ResolvedRound { snapshot, timestamp, winning_side: side as u64 },
                    },
                ),
                None => if snapshot.status@ == locked_marker() {
                    (RoundState::AwaitingResolution { snapshot, timestamp }, Action::PollStatusLater)
                } else {
                    (RoundState::AwaitingLock, Action::Restart)
                },
            },
            _ => (RoundState::AwaitingLock, Action::Restart),
        },
        RoundState::Resolved => match event {
            Event::Recorded => (RoundState::AwaitingLock, Action::PollStatus),
            _ => (RoundState::AwaitingLock, Action::Restart),
        },
    }
}

/// What holds of every state that the machine reaches from its start: a held
/// snapshot was taken while the round was locked.
pub open spec fn holds_locked_snapshot(state: RoundState) -> bool {
    state matches RoundState::AwaitingResolution { snapshot, .. } ==> snapshot.status@
        == locked_marker()
}

/// The state in which the machine starts, and to which it returns after each round.
pub fn initial_state() -> (r: RoundState)
    ensures
        r == RoundState::AwaitingLock,
        holds_locked_snapshot(r),
{
    RoundState::AwaitingLock
}

/// Advances the machine by one event.
pub fn step(state: RoundState, event: Event) -> (r: (RoundState, Action))
    ensures
        r == next(state, event),
        holds_locked_snapshot(state) ==> holds_locked_snapshot(r.0),
{
    match state {
        RoundState::AwaitingLock => match event {
            Event::Status { phase } => if is_locked(&phase) {
                (RoundState::AwaitingSnapshot, Action::FetchSnapshot)
            } else {
                (RoundState::AwaitingLock, Action::PollStatusLater)
            },
            _ => (RoundState::AwaitingLock, Action::Restart),
        },
        RoundState::AwaitingSnapshot => match event {
            Event::Snapshot { snapshot, now } => if is_locked(&snapshot.status) {
                (RoundState::AwaitingResolution { snapshot, timestamp: now }, Action::PollStatus)
            } else {
                (RoundState::AwaitingLock, Action::Restart)
            },
            _ => (RoundState::AwaitingLock, Action::Restart),
        },
        RoundState::AwaitingResolution { snapshot, timestamp } => match event {
            Event::Status { phase } => match parse_decimal(phase.as_str(), u64::MAX) {
                Some(side) => (
                    RoundState::Resolved,
                    Action::Record {
                        round: ResolvedRound { snapshot, timestamp, winning_side: side },
                    },
                ),
                None => if is_locked(&snapshot.status) {
                    (RoundState::AwaitingResolution { snapshot, timestamp }, Action::PollStatusLater)
                } else {
                    (RoundState::AwaitingLock, Action::Restart)
                },
            },
            _ => (RoundState::AwaitingLock, Action::Restart),
        },
        RoundState::Resolved => match event {
            Event::Recorded => (RoundState::AwaitingLock, Action::PollStatus),
            _ => (RoundState::AwaitingLock, Action::Restart),
        },
    }
}

/// A snapshot whose own phase is not exactly locked when it arrives is
/// dropped: the machine restarts and asks for no recording.
pub proof fn lemma_unlocked_snapshot_is_discarded(snapshot: Snapshot, now: u64)
    requires
        snapshot.status@ != locked_marker(),
    ensures
        next(RoundState::AwaitingSnapshot, Event::Snapshot { snapshot, now }) == (
        RoundState::AwaitingLock,
        Action::Restart,
        ),
{
}

/// Along any run from the start, a round is only handed out for recording
/// when the snapshot it carries was taken while the round was locked.
pub proof fn lemma_recorded_snapshot_was_locked(state: RoundState, event: Event)
    requires
        holds_locked_snapshot(state),
    ensures
        holds_locked_snapshot(next(state, event).0),
        next(state, event).1 matches Action::Record { round } ==> round.snapshot.status@
            == locked_marker(),
{
}

/// A full snapshot is only ever requested right after the status read locked.
pub proof fn lemma_snapshot_fetched_only_on_lock(state: RoundState, event: Event)
    requires
        next(state, event).1 is FetchSnapshot,
    ensures
        state is AwaitingLock,
        event matches Event::Status { phase } && phase@ == locked_marker(),
{
}

} // verus!
