//! Per-side wager totals of a snapshot.
use vstd::prelude::*;
use crate::snapshot::Wager;

verus! {

/// The sum of the stakes that back side 1.
pub open spec fn side1_total(ws: Seq<Wager>) -> int
    decreases ws.len(),
{
    if ws.len() == 0 {
        0
    } else {
        side1_total(ws.drop_last()) + if ws.last().side == 1 {
            ws.last().amount as int
        } else {
            0
        }
    }
}

/// The sum of the stakes that back any side but side 1.
pub open spec fn side2_total(ws: Seq<Wager>) -> int
    decreases ws.len(),
{
    if ws.len() == 0 {
        0
    } else {
        side2_total(ws.drop_last()) + if ws.last().side != 1 {
            ws.last().amount as int
        } else {
            0
        }
    }
}

/// The sum of all stakes.
pub open spec fn stake_total(ws: Seq<Wager>) -> int
    decreases ws.len(),
{
    if ws.len() == 0 {
        0
    } else {
        stake_total(ws.drop_last()) + ws.last().amount as int
    }
}

/// Every stake counts towards exactly one side: the two side totals add up
/// to the sum of all stakes.
pub proof fn lemma_totals_partition_stakes(ws: Seq<Wager>)
    ensures
        side1_total(ws) + side2_total(ws) == stake_total(ws),
    decreases ws.len(),
{
    if ws.len() > 0 {
        lemma_totals_partition_stakes(ws.drop_last());
    }
}

/// The stake totals of side 1 and side 2, in one pass over the wagers.
pub fn side_totals(wagers: &Vec<Wager>) -> (r: (i128, i128))
    ensures
        r.0 == side1_total(wagers@),
        r.1 == side2_total(wagers@),
        r.0 + r.1 == stake_total(wagers@),
{
    let mut t1: i128 = 0;
    let mut t2: i128 = 0;
    let mut i: usize = 0;
    while i < wagers.len()
        invariant
            i <= wagers@.len(),
            t1 == side1_total(wagers@.take(i as int)),
            t2 == side2_total(wagers@.take(i as int)),
            -(i as int) * 0x8000_0000_0000_0000 <= t1 <= (i as int) * 0x8000_0000_0000_0000,
            -(i as int) * 0x8000_0000_0000_0000 <= t2 <= (i as int) * 0x8000_0000_0000_0000,
        decreases wagers@.len() - i,
    {
        let w = &wagers[i];
        proof {
            assert(wagers@.take(i + 1).drop_last() =~= wagers@.take(i as int));
        }
        if w.side == 1 {
            t1 = t1 + w.amount as i128;
        } else {
            t2 = t2 + w.amount as i128;
        }
        i = i + 1;
    }
    proof {
        assert(wagers@.take(i as int) =~= wagers@);
        lemma_totals_partition_stakes(wagers@);
    }
    (t1, t2)
}

} // verus!
