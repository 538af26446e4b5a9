//! What the store writes do to the four relations, and the laws that the
//! writes of a round obey there.
use vstd::prelude::*;
use crate::record::{
    all_wager_writes, bettor_id, bettor_keys_valid, round_writes, wager_writes, winner_of,
    StoreWrite,
};
use crate::round::ResolvedRound;
use crate::snapshot::{name_for_side, Wager};

verus! {

pub struct MatchRow {
    pub time: u64,
    pub fighter1: Seq<char>,
    pub fighter2: Seq<char>,
    pub winner: Seq<char>,
}

pub struct BetRow {
    /// The position of the match in `StoreModel::matches`.
    pub round: nat,
    pub amount: i64,
    pub bettor: u32,
    pub fighter: Seq<char>,
}

/// The contents of the store.
pub struct StoreModel {
    pub fighters: Set<Seq<char>>,
    pub bettors: Map<u32, Seq<char>>,
    pub matches: Seq<MatchRow>,
    pub bets: Seq<BetRow>,
}

/// The store accepts the write: every row that it refers to exists.
pub open spec fn write_accepted(s: StoreModel, w: StoreWrite) -> bool {
    match w {
        StoreWrite::AddFighter { .. } => true,
        StoreWrite::AddBettor { .. } => true,
        StoreWrite::AddMatch { fighter1, fighter2, winner, .. } => s.fighters.contains(fighter1)
            && s.fighters.contains(fighter2) && s.fighters.contains(winner),
        StoreWrite::AddBet { bettor, fighter, .. } => s.matches.len() > 0
            && s.bettors.contains_key(bettor) && s.fighters.contains(fighter),
    }
}

/// The store after the write.
pub open spec fn apply_write(s: StoreModel, w: StoreWrite) -> StoreModel {
    match w {
        StoreWrite::AddFighter { name } => StoreModel { fighters: s.fighters.insert(name), ..s },
        StoreWrite::AddBettor { id, name } => if s.bettors.contains_key(id) {
            s
        } else {
            StoreModel { bettors: s.bettors.insert(id, name), ..s }
        },
        StoreWrite::AddMatch { time, fighter1, fighter2, winner } => StoreModel {
            matches: s.matches.push(MatchRow { time, fighter1, fighter2, winner }),
            ..s
        },
        StoreWrite::AddBet { amount, bettor, fighter } => StoreModel {
            bets: s.bets.push(
                BetRow { round: (s.matches.len() - 1) as nat, amount, bettor, fighter },
            ),
            ..s
        },
    }
}

/// The store after the writes, in order.
pub open spec fn apply_writes(s: StoreModel, ws: Seq<StoreWrite>) -> StoreModel
    decreases ws.len(),
{
    if ws.len() == 0 {
        s
    } else {
        apply_write(apply_writes(s, ws.drop_last()), ws.last())
    }
}

/// Adding the same fighter twice leaves the store as adding it once, and the
/// second write is accepted.
pub proof fn lemma_add_fighter_idempotent(s: StoreModel, name: Seq<char>)
    ensures
        ({
            let w = StoreWrite::AddFighter { name };
            let once = apply_write(s, w);
            write_accepted(once, w) && apply_write(once, w) == once
        }),
{
    let w = StoreWrite::AddFighter { name };
    let once = apply_write(s, w);
    assert(once.fighters.insert(name) =~= once.fighters);
}

/// Adding a bettor identifier again, under any name, leaves the store as the
/// first write left it, and the second write is accepted.
pub proof fn lemma_add_bettor_idempotent(s: StoreModel, id: u32, name: Seq<char>, again: Seq<char>)
    ensures
        ({
            let once = apply_write(s, StoreWrite::AddBettor { id, name });
            let w = StoreWrite::AddBettor { id, name: again };
            write_accepted(once, w) && apply_write(once, w) == once
        }),
{
}

/// The winner that a round's match row names is one of its two fighters.
pub proof fn lemma_winner_is_a_fighter(round: ResolvedRound)
    ensures
        round_writes(round)[2] matches StoreWrite::AddMatch { fighter1, fighter2, winner, .. } && (
        winner == fighter1 || winner == fighter2),
        winner_of(round) == round.snapshot.p1name@ || winner_of(round) == round.snapshot.p2name@,
{
}

/// `b` holds every fighter, bettor and match that `a` holds.
pub open spec fn keeps_rows(a: StoreModel, b: StoreModel) -> bool {
    &&& a.fighters.subset_of(b.fighters)
    &&& a.bettors.dom().subset_of(b.bettors.dom())
    &&& a.matches.len() <= b.matches.len()
}

proof fn lemma_write_keeps_rows(s: StoreModel, w: StoreWrite)
    ensures
        keeps_rows(s, apply_write(s, w)),
{
}

proof fn lemma_writes_keep_rows(s: StoreModel, ws: Seq<StoreWrite>, j: int, i: int)
    requires
        0 <= j <= i <= ws.len(),
    ensures
        keeps_rows(apply_writes(s, ws.take(j)), apply_writes(s, ws.take(i))),
    decreases i - j,
{
    if j < i {
        lemma_writes_keep_rows(s, ws, j, i - 1);
        assert(ws.take(i).drop_last() =~= ws.take(i - 1));
        lemma_write_keeps_rows(apply_writes(s, ws.take(i - 1)), ws[i - 1]);
    }
}

proof fn lemma_wager_writes_at(p1: Seq<char>, p2: Seq<char>, ws: Seq<Wager>, k: int)
    requires
        0 <= k < ws.len(),
    ensures
        all_wager_writes(p1, p2, ws).len() == 2 * ws.len(),
        all_wager_writes(p1, p2, ws)[2 * k] == wager_writes(p1, p2, ws[k])[0],
        all_wager_writes(p1, p2, ws)[2 * k + 1] == wager_writes(p1, p2, ws[k])[1],
    decreases ws.len(),
{
    lemma_wager_writes_len(p1, p2, ws.drop_last());
    if k < ws.len() - 1 {
        lemma_wager_writes_at(p1, p2, ws.drop_last(), k);
    }
}

proof fn lemma_wager_writes_len(p1: Seq<char>, p2: Seq<char>, ws: Seq<Wager>)
    ensures
        all_wager_writes(p1, p2, ws).len() == 2 * ws.len(),
    decreases ws.len(),
{
    if ws.len() > 0 {
        lemma_wager_writes_len(p1, p2, ws.drop_last());
    }
}

/// Issued in order on any store, every write that records a round refers
/// only to rows that exist when it is issued: each bet's match, bettor and
/// fighter, and each fighter of the match.
pub proof fn lemma_round_writes_refer_to_existing_rows(s: StoreModel, round: ResolvedRound)
    requires
        bettor_keys_valid(round.snapshot.wagers@),
    ensures
        forall|i: int|
            0 <= i < round_writes(round).len() ==> write_accepted(
                #[trigger] apply_writes(s, round_writes(round).take(i)),
                round_writes(round)[i],
            ),
{
    let ws = round_writes(round);
    let snap = round.snapshot;
    let p1 = snap.p1name@;
    let p2 = snap.p2name@;
    lemma_wager_writes_len(p1, p2, snap.wagers@);
    assert(ws.take(1).drop_last() =~= ws.take(0));
    assert(ws.take(2).drop_last() =~= ws.take(1));
    assert(ws.take(3).drop_last() =~= ws.take(2));
    assert(ws.take(0) =~= Seq::<StoreWrite>::empty());
    assert(ws[0] == StoreWrite::AddFighter { name: p1 });
    assert(ws[1] == StoreWrite::AddFighter { name: p2 });
    assert(apply_writes(s, ws.take(0)) == s);
    assert(ws.take(1).last() == ws[0]);
    assert(ws.take(2).last() == ws[1]);
    assert(ws.take(3).last() == ws[2]);
    let after1 = apply_writes(s, ws.take(1));
    assert(after1 == apply_write(s, ws[0]));
    assert(after1.fighters.contains(p1));
    let after2 = apply_writes(s, ws.take(2));
    assert(after2 == apply_write(after1, ws[1]));
    assert(after2.fighters.contains(p1) && after2.fighters.contains(p2));
    assert forall|i: int| 0 <= i < ws.len() implies write_accepted(
        #[trigger] apply_writes(s, ws.take(i)),
        ws[i],
    ) by {
        if i >= 3 {
            let k = (i - 3) / 2;
            lemma_wager_writes_at(p1, p2, snap.wagers@, k);
            lemma_writes_keep_rows(s, ws, 2, i);
            lemma_writes_keep_rows(s, ws, 3, i);
            let w = snap.wagers@[k];
            assert(bettor_id(w.bettor_key@) is Some);
            if i == 3 + 2 * k + 1 {
                let prev = apply_writes(s, ws.take(i - 1));
                assert(ws.take(i).drop_last() =~= ws.take(i - 1));
                assert(ws[i - 1] == wager_writes(p1, p2, w)[0]);
                let fighter = name_for_side(p1, p2, w.side as int);
                assert(fighter == p1 || fighter == p2);
            }
        }
    }
}

} // verus!
