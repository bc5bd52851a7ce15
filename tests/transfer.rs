use bank_transfer::transfer::{transfer_balances, Action, Event, Stage, Transfer, TransferError};

#[test]
fn transfer_moves_amount() {
    let (mut a, mut b) = (50u64, 50u64);
    assert_eq!(transfer_balances(&mut a, &mut b, 10), Ok(true));
    assert_eq!((a, b), (40, 60));
    assert_eq!(transfer_balances(&mut a, &mut b, 40), Ok(true));
    assert_eq!((a, b), (0, 100));
}

#[test]
fn transfer_insufficient_funds_changes_nothing() {
    let (mut a, mut b) = (50u64, 7u64);
    assert_eq!(transfer_balances(&mut a, &mut b, 51), Ok(false));
    assert_eq!((a, b), (50, 7));
    let (mut c, mut d) = (0u64, 0u64);
    assert_eq!(transfer_balances(&mut c, &mut d, 1), Ok(false));
    assert_eq!((c, d), (0, 0));
}

#[test]
fn transfer_of_zero_succeeds() {
    let (mut a, mut b) = (0u64, 3u64);
    assert_eq!(transfer_balances(&mut a, &mut b, 0), Ok(true));
    assert_eq!((a, b), (0, 3));
}

#[test]
fn transfer_credit_overflow_keeps_debit() {
    let (mut a, mut b) = (10u64, u64::MAX - 5);
    assert_eq!(transfer_balances(&mut a, &mut b, 10), Err(TransferError::Overflow));
    assert_eq!((a, b), (0, u64::MAX - 5));
}

#[test]
fn five_serial_transfers_conserve_funds() {
    let (mut ana, mut jay) = (50u64, 50u64);
    for _ in 0..5 {
        assert_eq!(transfer_balances(&mut ana, &mut jay, 10), Ok(true));
    }
    assert_eq!(ana, 0);
    assert_eq!(jay, 100);
    assert_eq!(ana + jay, 100);
    assert_eq!(transfer_balances(&mut ana, &mut jay, 10), Ok(false));
}

#[test]
fn protocol_steps_in_order() {
    let (mut t, a) = Transfer::start(10);
    assert_eq!(a, Action::ReadSource);
    assert_eq!(t.step(Event::Balance(50)), Action::Pause);
    assert_eq!(t.step(Event::Done), Action::WriteSource(40));
    assert_eq!(t.step(Event::Done), Action::ReadDestination);
    assert_eq!(t.step(Event::Balance(50)), Action::WriteDestination(60));
    assert_eq!(t.step(Event::Done), Action::Finish(true));
    assert_eq!(t.stage, Stage::Finished(true));
}

#[test]
fn protocol_rejects_low_balance_before_any_write() {
    let (mut t, _) = Transfer::start(10);
    assert_eq!(t.step(Event::Balance(9)), Action::Finish(false));
    assert_eq!(t.step(Event::Done), Action::Finish(false));
}

#[test]
fn protocol_ignores_unexpected_event() {
    let (mut t, _) = Transfer::start(10);
    assert_eq!(t.step(Event::Done), Action::ReadSource);
    assert_eq!(t.stage, Stage::AwaitSource);
    assert_eq!(t.step(Event::Balance(10)), Action::Pause);
    assert_eq!(t.step(Event::Balance(3)), Action::Pause);
    assert_eq!(t.action(), Action::Pause);
}

#[test]
fn protocol_overflow_on_credit() {
    let (mut t, _) = Transfer::start(2);
    t.step(Event::Balance(2));
    t.step(Event::Done);
    t.step(Event::Done);
    assert_eq!(t.step(Event::Balance(u64::MAX - 1)), Action::Overflow);
    assert_eq!(t.stage, Stage::Aborted);
}

/// Runs the actions of several transfers against two balances, a whole phase
/// of every transfer before the next phase of any, as threads can when each
/// pauses at the probe point.
fn run_interleaved(ana: &mut u64, jay: &mut u64, n: usize, amount: u64) -> Vec<bool> {
    let mut ts: Vec<(Transfer, Action)> = (0..n).map(|_| Transfer::start(amount)).collect();
    let mut results = vec![false; n];
    let mut done = vec![false; n];
    while done.iter().any(|d| !d) {
        for i in 0..n {
            if done[i] {
                continue;
            }
            let (t, a) = &mut ts[i];
            *a = match *a {
                Action::ReadSource => t.step(Event::Balance(*ana)),
                Action::Pause => t.step(Event::Done),
                Action::WriteSource(v) => {
                    *ana = v;
                    t.step(Event::Done)
                }
                Action::ReadDestination => t.step(Event::Balance(*jay)),
                Action::WriteDestination(v) => {
                    *jay = v;
                    t.step(Event::Done)
                }
                Action::Finish(moved) => {
                    results[i] = moved;
                    done[i] = true;
                    continue;
                }
                Action::Overflow => panic!("overflow"),
            };
        }
    }
    results
}

#[test]
fn interleaved_transfers_lose_updates() {
    let (mut ana, mut jay) = (50u64, 50u64);
    let results = run_interleaved(&mut ana, &mut jay, 5, 10);
    assert_eq!(results, vec![true; 5]);
    assert_eq!(ana, 40);
    assert_eq!(jay, 60);
    assert!(ana > 0 || jay < 100);
}

#[test]
fn interleaved_transfers_overdraw_source() {
    let (mut ana, mut jay) = (10u64, 50u64);
    let results = run_interleaved(&mut ana, &mut jay, 2, 10);
    assert_eq!(results, vec![true, true]);
    assert_eq!(ana, 0);
    assert_eq!(jay, 60);
    let (mut low, mut other) = (10u64, 50u64);
    assert_eq!(transfer_balances(&mut low, &mut other, 10), Ok(true));
    assert_eq!(transfer_balances(&mut low, &mut other, 10), Ok(false));
}
