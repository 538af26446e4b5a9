use saltybook::decimal::parse_decimal;
use saltybook::record::{record_plan, winner_name, RecordError, StoreOp};
use saltybook::round::{initial_state, step, Action, Event, ResolvedRound, RoundState};
use saltybook::snapshot::{is_locked, Snapshot, Wager};
use saltybook::totals::side_totals;

fn wager(key: &str, name: &str, side: u32, amount: i64) -> Wager {
    Wager { bettor_key: key.to_string(), name: name.to_string(), side, amount }
}

fn snapshot(status: &str, wagers: Vec<Wager>) -> Snapshot {
    Snapshot {
        p1name: "Ryu".to_string(),
        p1total: "0".to_string(),
        p2name: "Ken".to_string(),
        p2total: "0".to_string(),
        status: status.to_string(),
        alert: String::new(),
        x: 1,
        remaining: String::new(),
        wagers,
    }
}

fn status(phase: &str) -> Event {
    Event::Status { phase: phase.to_string() }
}

fn scenario_a_wagers() -> Vec<Wager> {
    vec![wager("10", "alice", 1, 100), wager("20", "bob", 2, 50)]
}

#[test]
fn parse_decimal_reads_plain_and_signed_digits() {
    assert_eq!(parse_decimal("1", u64::MAX), Some(1));
    assert_eq!(parse_decimal("+7", u64::MAX), Some(7));
    assert_eq!(parse_decimal("0042", u64::MAX), Some(42));
    assert_eq!(parse_decimal("18446744073709551615", u64::MAX), Some(u64::MAX));
}

#[test]
fn parse_decimal_rejects_malformed_and_large_values() {
    assert_eq!(parse_decimal("", u64::MAX), None);
    assert_eq!(parse_decimal("+", u64::MAX), None);
    assert_eq!(parse_decimal("locked", u64::MAX), None);
    assert_eq!(parse_decimal("-1", u64::MAX), None);
    assert_eq!(parse_decimal(" 1", u64::MAX), None);
    assert_eq!(parse_decimal("1é", u64::MAX), None);
    assert_eq!(parse_decimal("18446744073709551616", u64::MAX), None);
    assert_eq!(parse_decimal("4294967295", 0xFFFF_FFFF), Some(4294967295));
    assert_eq!(parse_decimal("4294967296", 0xFFFF_FFFF), None);
}

#[test]
fn is_locked_matches_the_marker_only() {
    assert!(is_locked(&"locked".to_string()));
    assert!(!is_locked(&"Locked".to_string()));
    assert!(!is_locked(&"locked ".to_string()));
    assert!(!is_locked(&"open".to_string()));
    assert!(!is_locked(&String::new()));
}

#[test]
fn side_totals_of_empty_mapping_are_zero() {
    assert_eq!(side_totals(&Vec::new()), (0, 0));
}

#[test]
fn side_totals_split_by_side_and_cover_all_stakes() {
    let ws = vec![
        wager("1", "a", 1, 100),
        wager("2", "b", 2, 50),
        wager("3", "c", 1, -30),
        wager("4", "d", 2, 7),
    ];
    let (t1, t2) = side_totals(&ws);
    assert_eq!(t1, 70);
    assert_eq!(t2, 57);
    assert_eq!(t1 + t2, 127);
}

#[test]
fn side_totals_do_not_overflow() {
    let ws = vec![wager("1", "a", 1, i64::MAX), wager("2", "b", 1, i64::MAX), wager("3", "c", 2, i64::MIN)];
    let (t1, t2) = side_totals(&ws);
    assert_eq!(t1, 2 * (i64::MAX as i128));
    assert_eq!(t2, i64::MIN as i128);
}

#[test]
fn scenario_a_records_the_round() {
    let mut state = initial_state();
    for phase in ["5", "5"] {
        let (s, a) = step(state, status(phase));
        assert!(matches!(s, RoundState::AwaitingLock));
        assert!(matches!(a, Action::PollStatusLater));
        state = s;
    }
    let (s, a) = step(state, status("locked"));
    assert!(matches!(s, RoundState::AwaitingSnapshot));
    assert!(matches!(a, Action::FetchSnapshot));
    let (s, a) = step(s, Event::Snapshot { snapshot: snapshot("locked", scenario_a_wagers()), now: 1700000000 });
    assert!(matches!(s, RoundState::AwaitingResolution { .. }));
    assert!(matches!(a, Action::PollStatus));
    let mut state = s;
    for phase in ["locked", "locked"] {
        let (s, a) = step(state, status(phase));
        assert!(matches!(s, RoundState::AwaitingResolution { .. }));
        assert!(matches!(a, Action::PollStatusLater));
        state = s;
    }
    let (s, a) = step(state, status("1"));
    assert!(matches!(s, RoundState::Resolved));
    let round = match a {
        Action::Record { round } => round,
        _ => panic!("expected a round to record"),
    };
    assert_eq!(round.winning_side, 1);
    assert_eq!(round.timestamp, 1700000000);
    assert_eq!(winner_name(&round), "Ryu");
    assert_eq!(side_totals(&round.snapshot.wagers), (100, 50));

    let ops = match record_plan(&round) {
        Ok(ops) => ops,
        Err(_) => panic!("bettor keys are valid"),
    };
    assert_eq!(ops.len(), 7);
    assert!(matches!(&ops[0], StoreOp::AddFighter { name } if name == "Ryu"));
    assert!(matches!(&ops[1], StoreOp::AddFighter { name } if name == "Ken"));
    assert!(matches!(&ops[2], StoreOp::AddMatch { time: 1700000000, fighter1, fighter2, winner }
        if fighter1 == "Ryu" && fighter2 == "Ken" && winner == "Ryu"));
    assert!(matches!(&ops[3], StoreOp::AddBettor { id: 10, name } if name == "alice"));
    assert!(matches!(&ops[4], StoreOp::AddBet { amount: 100, bettor: 10, fighter } if fighter == "Ryu"));
    assert!(matches!(&ops[5], StoreOp::AddBettor { id: 20, name } if name == "bob"));
    assert!(matches!(&ops[6], StoreOp::AddBet { amount: 50, bettor: 20, fighter } if fighter == "Ken"));

    let (s, a) = step(s, Event::Recorded);
    assert!(matches!(s, RoundState::AwaitingLock));
    assert!(matches!(a, Action::PollStatus));
}

#[test]
fn scenario_b_winner_without_lock_fetches_nothing() {
    let (s, a) = step(initial_state(), status("5"));
    assert!(matches!(a, Action::PollStatusLater));
    let (s, a) = step(s, status("2"));
    assert!(matches!(s, RoundState::AwaitingLock));
    assert!(matches!(a, Action::PollStatusLater));
}

#[test]
fn scenario_c_recheck_of_unlocked_snapshot_restarts() {
    let state = RoundState::AwaitingResolution { snapshot: snapshot("5", scenario_a_wagers()), timestamp: 9 };
    let (s, a) = step(state, status("locked"));
    assert!(matches!(s, RoundState::AwaitingLock));
    assert!(matches!(a, Action::Restart));
}

#[test]
fn unlocked_snapshot_is_discarded() {
    let (s, _) = step(initial_state(), status("locked"));
    let (s, a) = step(s, Event::Snapshot { snapshot: snapshot("open", scenario_a_wagers()), now: 5 });
    assert!(matches!(s, RoundState::AwaitingLock));
    assert!(matches!(a, Action::Restart));
}

#[test]
fn unexpected_event_drops_the_round() {
    let (s, a) = step(initial_state(), Event::Recorded);
    assert!(matches!(s, RoundState::AwaitingLock));
    assert!(matches!(a, Action::Restart));
    let (s, _) = step(initial_state(), status("locked"));
    let (s, a) = step(s, status("locked"));
    assert!(matches!(s, RoundState::AwaitingLock));
    assert!(matches!(a, Action::Restart));
}

#[test]
fn winner_side_two_names_second_fighter() {
    let round = ResolvedRound { snapshot: snapshot("locked", Vec::new()), timestamp: 3, winning_side: 2 };
    assert_eq!(winner_name(&round), "Ken");
    let ops = match record_plan(&round) {
        Ok(ops) => ops,
        Err(_) => panic!("no wagers to reject"),
    };
    assert_eq!(ops.len(), 3);
    assert!(matches!(&ops[2], StoreOp::AddMatch { time: 3, winner, .. } if winner == "Ken"));
}

#[test]
fn record_plan_rejects_first_invalid_bettor_key() {
    let ws = vec![wager("10", "a", 1, 1), wager("x1", "b", 2, 2), wager("", "c", 1, 3)];
    let round = ResolvedRound { snapshot: snapshot("locked", ws), timestamp: 3, winning_side: 1 };
    assert!(matches!(record_plan(&round), Err(RecordError::InvalidBettorId { index: 1 })));
    let big = vec![wager("4294967296", "a", 1, 1)];
    let round = ResolvedRound { snapshot: snapshot("locked", big), timestamp: 3, winning_side: 1 };
    assert!(matches!(record_plan(&round), Err(RecordError::InvalidBettorId { index: 0 })));
}
