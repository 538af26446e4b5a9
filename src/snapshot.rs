//! The full round snapshot of the remote source, and its phase values.
use vstd::prelude::*;

verus! {

/// One bettor's stake in the round, keyed by the source's bettor identifier.
pub struct Wager {
    /// The bettor identifier as the source writes it (a decimal string).
    pub bettor_key: String,
    /// The bettor's display name.
    pub name: String,
    /// Which participant the stake backs: 1, or 2.
    pub side: u32,
    /// The stake as observed; adjusted amounts may be negative.
    pub amount: i64,
}

/// Both participants, the informational fields and every wager of a round.
pub struct Snapshot {
    pub p1name: String,
    pub p1total: String,
    pub p2name: String,
    pub p2total: String,
    /// The phase of the round when the snapshot was taken.
    pub status: String,
    pub alert: String,
    /// The source's round sequence counter.
    pub x: i64,
    pub remaining: String,
    pub wagers: Vec<Wager>,
}

/// The phase value of a round that no longer takes wagers.
pub open spec fn locked_marker() -> Seq<char> {
    seq!['l', 'o', 'c', 'k', 'e', 'd']
}

/// Whether a phase value is exactly the locked marker.
pub fn is_locked(phase: &String) -> (r: bool)
    ensures
        r == (phase@ == locked_marker()),
{
    let marker = "locked".to_owned();
    proof {
        reveal_strlit("locked");
    }
    assert(marker@ =~= locked_marker());
    *phase == marker
}

/// The name of the participant that side `side` stands for: side 1 is the
/// first participant, any other side the second.
pub open spec fn name_for_side(p1: Seq<char>, p2: Seq<char>, side: int) -> Seq<char> {
    if side == 1 {
        p1
    } else {
        p2
    }
}

/// The participant that a side indicator backs: side 1 is the first, any
/// other side the second.
pub fn participant_for_side(snapshot: &Snapshot, side: u64) -> (r: &String)
    ensures
        r@ == name_for_side(snapshot.p1name@, snapshot.p2name@, side as int),
{
    if side == 1 {
        &snapshot.p1name
    } else {
        &snapshot.p2name
    }
}

} // verus!
