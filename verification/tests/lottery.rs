use lottery_test::AccountId;
use lottery_test::Entered;
use lottery_test::Env;
use lottery_test::Error;
use lottery_test::LotteryTest;
use lottery_test::Won;

fn env(caller: u64, value: u128) -> Env {
    Env {
        caller: AccountId(caller),
        transferred_value: value,
        balance: 0,
        block_timestamp: 1_700_000_000_000,
        block_number: 42,
        transfer_succeeds: true,
    }
}

fn running_lottery(operator: u64) -> LotteryTest {
    let op = env(operator, 0);
    let mut lt = LotteryTest::new(false, &op);
    assert_eq!(lt.start_lottery(&op), Ok(()));
    lt
}

#[test]
fn construction_fixes_operator_and_starts_stopped() {
    let lt = LotteryTest::new(true, &env(7, 0));
    assert_eq!(lt.owner(), AccountId(7));
    assert!(!lt.is_running());
    assert!(lt.get_players().is_empty());
    assert_eq!(lt.get_balances(AccountId(7)), None);
}

#[test]
fn pot_reports_the_custodied_balance() {
    let lt = LotteryTest::new(false, &env(1, 0));
    let mut e = env(2, 0);
    e.balance = 1234;
    assert_eq!(lt.pot(&e), 1234);
}

#[test]
fn players_and_stakes_stay_co_indexed_after_each_entry() {
    let mut lt = running_lottery(1);
    for (i, id) in [10u64, 11, 12, 13].iter().enumerate() {
        assert_eq!(
            lt.enter(&env(*id, 5 + i as u128)),
            Ok(Entered { player: AccountId(*id), value: 5 + i as u128 })
        );
        let players = lt.get_players();
        assert_eq!(players.len(), i + 1);
        for p in players.iter() {
            assert!(lt.get_balances(*p).is_some());
        }
    }
    assert_eq!(
        lt.get_players(),
        vec![AccountId(10), AccountId(11), AccountId(12), AccountId(13)]
    );
    assert_eq!(lt.get_balances(AccountId(12)), Some(7));
    assert_eq!(lt.get_balances(AccountId(99)), None);
}

#[test]
fn reentry_fails_and_leaves_the_ledger_unchanged() {
    let mut lt = running_lottery(1);
    assert_eq!(lt.enter(&env(5, 100)), Ok(Entered { player: AccountId(5), value: 100 }));
    let before_players = lt.get_players();
    let before_stake = lt.get_balances(AccountId(5));
    assert_eq!(lt.enter(&env(5, 999)), Err(Error::PlayerAlreadyInLottery));
    assert_eq!(lt.get_players(), before_players);
    assert_eq!(lt.get_balances(AccountId(5)), before_stake);
    assert!(lt.is_running());
}

#[test]
fn entering_while_stopped_fails_for_any_caller_and_value() {
    let mut lt = LotteryTest::new(false, &env(1, 0));
    assert_eq!(lt.enter(&env(2, 10)), Err(Error::LotteryNotRunning));
    assert_eq!(lt.enter(&env(1, 0)), Err(Error::LotteryNotRunning));
    assert_eq!(lt.enter(&env(3, u128::MAX)), Err(Error::LotteryNotRunning));
    assert!(lt.get_players().is_empty());
    // stopping again after a started round also closes entry
    let op = env(1, 0);
    assert_eq!(lt.start_lottery(&op), Ok(()));
    assert_eq!(lt.stop_lottery(&op), Ok(()));
    assert_eq!(lt.enter(&env(2, 10)), Err(Error::LotteryNotRunning));
}

#[test]
fn entering_with_zero_value_fails() {
    let mut lt = running_lottery(1);
    assert_eq!(lt.enter(&env(2, 0)), Err(Error::NoValueSent));
    assert!(lt.get_players().is_empty());
    assert_eq!(lt.get_balances(AccountId(2)), None);
}

#[test]
fn one_unit_is_enough_to_enter() {
    let mut lt = running_lottery(1);
    assert_eq!(lt.enter(&env(2, 1)), Ok(Entered { player: AccountId(2), value: 1 }));
    assert_eq!(lt.get_balances(AccountId(2)), Some(1));
}

#[test]
fn drawing_with_no_entries_fails_and_changes_nothing() {
    let mut lt = running_lottery(1);
    let mut e = env(9, 0);
    e.balance = 500;
    assert_eq!(lt.pick_winner(&e), Err(Error::NoEntries));
    assert!(lt.get_players().is_empty());
    assert!(lt.is_running());
    assert_eq!(lt.owner(), AccountId(1));
}

#[test]
fn a_single_participant_always_wins() {
    for (ts, bn) in [(0u64, 0u32), (1, 1), (1_700_000_000_000, 42), (u64::MAX, u32::MAX)] {
        let mut lt = running_lottery(1);
        assert!(lt.enter(&env(77, 3)).is_ok());
        let mut e = env(9, 0);
        e.balance = 3;
        e.block_timestamp = ts;
        e.block_number = bn;
        assert_eq!(lt.pick_winner(&e), Ok(Won { winner: AccountId(77), amount: 3 }));
    }
}

#[test]
fn a_successful_draw_clears_every_record() {
    let mut lt = running_lottery(1);
    for id in [2u64, 3, 4, 5, 6] {
        assert!(lt.enter(&env(id, 10)).is_ok());
    }
    let mut e = env(9, 0);
    e.balance = 50;
    let won = lt.pick_winner(&e).expect("draw must succeed");
    assert_eq!(won.amount, 50);
    assert!((2..=6).contains(&won.winner.0));
    assert!(lt.get_players().is_empty());
    for id in [2u64, 3, 4, 5, 6] {
        assert_eq!(lt.get_balances(AccountId(id)), None);
    }
    // the running flag is left untouched across rounds
    assert!(lt.is_running());
}

#[test]
fn a_failed_transfer_preserves_the_ledger_for_retry() {
    let mut lt = running_lottery(1);
    for id in [2u64, 3, 4] {
        assert!(lt.enter(&env(id, 10)).is_ok());
    }
    let before = lt.get_players();
    let mut e = env(9, 0);
    e.balance = 30;
    e.transfer_succeeds = false;
    assert_eq!(lt.pick_winner(&e), Err(Error::ErrTransfer));
    assert_eq!(lt.get_players(), before);
    for id in [2u64, 3, 4] {
        assert_eq!(lt.get_balances(AccountId(id)), Some(10));
    }
    // the retry with a working transfer succeeds
    e.transfer_succeeds = true;
    let won = lt.pick_winner(&e).expect("retry must succeed");
    assert_eq!(won.amount, 30);
    assert!(lt.get_players().is_empty());
}

#[test]
fn the_draw_is_deterministic_in_its_inputs() {
    let run = || {
        let mut lt = running_lottery(1);
        for id in [2u64, 3, 4, 5] {
            assert!(lt.enter(&env(id, 10)).is_ok());
        }
        let mut e = env(9, 0);
        e.balance = 40;
        lt.pick_winner(&e).expect("draw must succeed")
    };
    assert_eq!(run(), run());
}

#[test]
fn only_the_operator_starts_and_stops() {
    let mut lt = LotteryTest::new(false, &env(1, 0));
    assert_eq!(lt.start_lottery(&env(2, 0)), Err(Error::CallerNotOwner));
    assert!(!lt.is_running());
    assert_eq!(lt.start_lottery(&env(1, 0)), Ok(()));
    assert!(lt.is_running());
    assert_eq!(lt.stop_lottery(&env(3, 0)), Err(Error::CallerNotOwner));
    assert!(lt.is_running());
    assert_eq!(lt.stop_lottery(&env(1, 0)), Ok(()));
    assert!(!lt.is_running());
}

#[test]
fn start_and_stop_are_idempotent_for_the_operator() {
    let op = env(1, 0);
    let mut lt = LotteryTest::new(false, &op);
    assert_eq!(lt.start_lottery(&op), Ok(()));
    assert_eq!(lt.start_lottery(&op), Ok(()));
    assert!(lt.is_running());
    assert_eq!(lt.stop_lottery(&op), Ok(()));
    assert_eq!(lt.stop_lottery(&op), Ok(()));
    assert!(!lt.is_running());
}

#[test]
fn full_round_scenario() {
    // construct with operator A
    let a = env(1, 0);
    let mut lt = LotteryTest::new(false, &a);
    // A starts the round
    assert_eq!(lt.start_lottery(&a), Ok(()));
    assert!(lt.is_running());
    // B enters with value 10 and the Entered notification names them
    let b = env(2, 10);
    assert_eq!(lt.enter(&b), Ok(Entered { player: AccountId(2), value: 10 }));
    // B cannot enter again
    assert_eq!(lt.enter(&b), Err(Error::PlayerAlreadyInLottery));
    // C draws with pot = 10: B, the only entrant, wins it all
    let mut c = env(3, 0);
    c.balance = 10;
    assert_eq!(lt.pick_winner(&c), Ok(Won { winner: AccountId(2), amount: 10 }));
    assert!(lt.get_players().is_empty());
}
