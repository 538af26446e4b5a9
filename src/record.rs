//! The store writes that record a resolved round, and the store they act on.
//!
//! The store holds four relations: fighters keyed by name, bettors keyed by
//! identifier, matches, and bets that refer to a match, a bettor and a
//! fighter. A round is recorded by a fixed sequence of writes that the
//! caller issues in order.
use vstd::prelude::*;
use crate::decimal::{decimal_below, parse_decimal};
use crate::round::ResolvedRound;
use crate::snapshot::{name_for_side, participant_for_side, Wager};

verus! {

/// One write to the store.
pub enum StoreOp {
    /// Insert the fighter if no fighter of that name exists.
    AddFighter { name: String },
    /// Insert a match; the store assigns its identifier.
    AddMatch { time: u64, fighter1: String, fighter2: String, winner: String },
    /// Insert the bettor if no bettor of that identifier exists.
    AddBettor { id: u32, name: String },
    /// Insert a bet on the match most recently inserted.
    AddBet { amount: i64, bettor: u32, fighter: String },
}

/// A store write with its strings as character sequences.
pub enum StoreWrite {
    AddFighter { name: Seq<char> },
    AddMatch { time: u64, fighter1: Seq<char>, fighter2: Seq<char>, winner: Seq<char> },
    AddBettor { id: u32, name: Seq<char> },
    AddBet { amount: i64, bettor: u32, fighter: Seq<char> },
}

impl View for StoreOp {
    type V = StoreWrite;

    open spec fn view(&self) -> StoreWrite {
        match self {
            StoreOp::AddFighter { name } => StoreWrite::AddFighter { name: name@ },
            StoreOp::AddMatch { time, fighter1, fighter2, winner } => StoreWrite::AddMatch {
                time: *time,
                fighter1: fighter1@,
                fighter2: fighter2@,
                winner: winner@,
            },
            StoreOp::AddBettor { id, name } => StoreWrite::AddBettor { id: *id, name: name@ },
            StoreOp::AddBet { amount, bettor, fighter } => StoreWrite::AddBet {
                amount: *amount,
                bettor: *bettor,
                fighter: fighter@,
            },
        }
    }
}

pub enum RecordError {
    /// The wager at this index has a bettor key that is no decimal `u32`.
    InvalidBettorId { index: usize },
}

/// The bettor identifier that a bettor key writes, if any.
pub open spec fn bettor_id(key: Seq<char>) -> Option<nat> {
    decimal_below(key, u32::MAX as nat)
}

pub open spec fn bettor_keys_valid(ws: Seq<Wager>) -> bool {
    forall|i: int| 0 <= i < ws.len() ==> (#[trigger] bettor_id(ws[i].bettor_key@)) is Some
}

/// The name of the winning participant of a round.
pub open spec fn winner_of(round: ResolvedRound) -> Seq<char> {
    name_for_side(round.snapshot.p1name@, round.snapshot.p2name@, round.winning_side as int)
}

/// The two writes for one wager: its bettor, then its bet.
pub open spec fn wager_writes(p1: Seq<char>, p2: Seq<char>, w: Wager) -> Seq<StoreWrite> {
    let id = bettor_id(w.bettor_key@)->Some_0 as u32;
    seq![
        StoreWrite::AddBettor { id, name: w.name@ },
        StoreWrite::AddBet { amount: w.amount, bettor: id, fighter: name_for_side(p1, p2, w.side as int) },
    ]
}

pub open spec fn all_wager_writes(p1: Seq<char>, p2: Seq<char>, ws: Seq<Wager>) -> Seq<StoreWrite>
    decreases ws.len(),
{
    if ws.len() == 0 {
        Seq::empty()
    } else {
        all_wager_writes(p1, p2, ws.drop_last()) + wager_writes(p1, p2, ws.last())
    }
}

/// The writes that record a round: both fighters, the match, then for each
/// wager its bettor and its bet.
pub open spec fn round_writes(round: ResolvedRound) -> Seq<StoreWrite> {
    let s = round.snapshot;
    seq![
        StoreWrite::AddFighter { name: s.p1name@ },
        StoreWrite::AddFighter { name: s.p2name@ },
        StoreWrite::AddMatch {
            time: round.timestamp,
            fighter1: s.p1name@,
            fighter2: s.p2name@,
            winner: winner_of(round),
        },
    ] + all_wager_writes(s.p1name@, s.p2name@, s.wagers@)
}

/// The name of the winning participant: the first for side 1, else the second.
pub fn winner_name(round: &ResolvedRound) -> (r: &String)
    ensures
        r@ == winner_of(*round),
{
    participant_for_side(&round.snapshot, round.winning_side)
}

/// The writes that record `round`, in the order in which they are issued.
/// Fails when a bettor key is not a decimal `u32`, naming the first such wager.
pub fn record_plan(round: &ResolvedRound) -> (r: Result<Vec<StoreOp>, RecordError>)
    ensures
        r is Ok <==> bettor_keys_valid(round.snapshot.wagers@),
        r matches Ok(ops) ==> ops@.map_values(|o: StoreOp| o@) == round_writes(*round),
        r matches Err(RecordError::InvalidBettorId { index }) ==> index
            < round.snapshot.wagers@.len() && bettor_id(
            round.snapshot.wagers@[index as int].bettor_key@,
        ) is None && forall|j: int|
            0 <= j < index ==> (#[trigger] bettor_id(
                round.snapshot.wagers@[j].bettor_key@,
            )) is Some,
{
    let s = &round.snapshot;
    let ghost p1 = s.p1name@;
    let ghost p2 = s.p2name@;
    let mut ops: Vec<StoreOp> = Vec::new();
    ops.push(StoreOp::AddFighter { name: s.p1name.clone() });
    ops.push(StoreOp::AddFighter { name: s.p2name.clone() });
    ops.push(
        StoreOp::AddMatch {
            time: round.timestamp,
            fighter1: s.p1name.clone(),
            fighter2: s.p2name.clone(),
            winner: winner_name(round).clone(),
        },
    );
    let ghost head = seq![
        StoreWrite::AddFighter { name: p1 },
        StoreWrite::AddFighter { name: p2 },
        StoreWrite::AddMatch {
            time: round.timestamp,
            fighter1: p1,
            fighter2: p2,
            winner: winner_of(*round),
        },
    ];
    assert(ops@.map_values(|o: StoreOp| o@) =~= head);
    let mut i: usize = 0;
    while i < s.wagers.len()
        invariant
            s == round.snapshot,
            p1 == s.p1name@,
            p2 == s.p2name@,
            head.len() == 3,
            round_writes(*round) == head + all_wager_writes(p1, p2, s.wagers@),
            i <= s.wagers@.len(),
            forall|j: int| 0 <= j < i ==> (#[trigger] bettor_id(s.wagers@[j].bettor_key@)) is Some,
            ops@.map_values(|o: StoreOp| o@) == head + all_wager_writes(
                p1,
                p2,
                s.wagers@.take(i as int),
            ),
        decreases s.wagers@.len() - i,
    {
        let w = &s.wagers[i];
        let id = match parse_decimal(w.bettor_key.as_str(), 0xFFFF_FFFFu64) {
            Some(v) => v as u32,
            None => {
                return Err(RecordError::InvalidBettorId { index: i });
            },
        };
        let ghost before = ops@.map_values(|o: StoreOp| o@);
        ops.push(StoreOp::AddBettor { id, name: w.name.clone() });
        ops.push(
            StoreOp::AddBet {
                amount: w.amount,
                bettor: id,
                fighter: participant_for_side(s, w.side as u64).clone(),
            },
        );
        proof {
            let ws = s.wagers@;
            assert(ws.take(i + 1).drop_last() =~= ws.take(i as int));
            assert(ws.take(i + 1).last() == ws[i as int]);
            assert(ops@.map_values(|o: StoreOp| o@) =~= before + wager_writes(p1, p2, ws[i as int]));
            assert(head + all_wager_writes(p1, p2, ws.take(i + 1)) =~= head + all_wager_writes(
                p1,
                p2,
                ws.take(i as int),
            ) + wager_writes(p1, p2, ws[i as int]));
        }
        i = i + 1;
    }
    assert(s.wagers@.take(i as int) =~= s.wagers@);
    Ok(ops)
}

} // verus!
