//! The transfer protocol between a source and a destination account.
//!
//! A transfer is a short conversation with the two accounts' storage. Each
//! `Action` is one locked access: the caller takes the account's lock, does
//! the read or the write, and lets the lock go again. The lock is therefore
//! released between the balance check and the debit, and between each
//! account's read and write, so transfers that share an account may
//! interleave and overwrite each other's updates. That gap is kept on
//! purpose, so that concurrency tests can reach it; holding one lock across
//! each read-and-write pair is the way to close it.
use vstd::prelude::*;

verus! {

/// What the transfer asks its caller to do next.
#[derive(Debug, Clone, Copy, PartialEq, Eq, Structural)]
pub enum Action {
    /// Lock the source, read its balance, unlock.
    ReadSource,
    /// Run the scheduling probe: the point between the funds check and the
    /// debit, where a test may insert a delay.
    Pause,
    /// Lock the source, store this balance, unlock.
    WriteSource(u64),
    /// Lock the destination, read its balance, unlock.
    ReadDestination,
    /// Lock the destination, store this balance, unlock.
    WriteDestination(u64),
    /// The transfer is over: `true` when the amount moved, `false` when the
    /// source held too little and nothing was written.
    Finish(bool),
    /// The destination's balance plus the amount does not fit in a `u64`.
    /// The source has already been debited, and is not restored.
    Overflow,
}

/// What the caller reports back after doing an action.
#[derive(Debug, Clone, Copy, PartialEq, Eq, Structural)]
pub enum Event {
    /// The balance that a read returned.
    Balance(u64),
    /// A write, or the probe, has completed.
    Done,
}

/// Where a transfer stands.
#[derive(Debug, Clone, Copy, PartialEq, Eq, Structural)]
pub enum Stage {
    /// Nothing done yet; the source's balance is wanted.
    AwaitSource,
    /// The funds check passed; the probe runs before the debit is written.
    AwaitPause { debit: u64 },
    /// The source's debited balance is to be written.
    AwaitSourceWrite { debit: u64 },
    /// The source is debited; the destination's balance is wanted.
    AwaitDestination,
    /// The destination's credited balance is to be written.
    AwaitDestinationWrite { credit: u64 },
    /// The transfer is over, with its result.
    Finished(bool),
    /// The credit did not fit in a `u64`; the source stays debited.
    Aborted,
}

/// One transfer of `amount` from a source account to a destination account.
#[derive(Debug, Clone, Copy, PartialEq, Eq, Structural)]
pub struct Transfer {
    pub amount: u64,
    pub stage: Stage,
}

/// Why an in-memory transfer stopped without finishing.
#[derive(Debug, Clone, Copy, PartialEq, Eq, Structural)]
pub enum TransferError {
    /// The destination's new balance would not fit in a `u64`.
    Overflow,
}

/// The action that a transfer in stage `s` is waiting on.
pub open spec fn pending(s: Stage) -> Action {
    match s {
        Stage::AwaitSource => Action::ReadSource,
        Stage::AwaitPause { .. } => Action::Pause,
        Stage::AwaitSourceWrite { debit } => Action::WriteSource(debit),
        Stage::AwaitDestination => Action::ReadDestination,
        Stage::AwaitDestinationWrite { credit } => Action::WriteDestination(credit),
        Stage::Finished(moved) => Action::Finish(moved),
        Stage::Aborted => Action::Overflow,
    }
}

/// The stage that transfer `t` reaches on event `e`. An event that does not
/// answer the pending action leaves the stage as it is.
pub open spec fn next_stage(t: Transfer, e: Event) -> Stage {
    match (t.stage, e) {
        (Stage::AwaitSource, Event::Balance(b)) => if b < t.amount {
            Stage::Finished(false)
        } else {
            Stage::AwaitPause { debit: (b - t.amount) as u64 }
        },
        (Stage::AwaitPause { debit }, Event::Done) => Stage::AwaitSourceWrite { debit },
        (Stage::AwaitSourceWrite { .. }, Event::Done) => Stage::AwaitDestination,
        (Stage::AwaitDestination, Event::Balance(b)) => if b + t.amount > u64::MAX {
            Stage::Aborted
        } else {
            Stage::AwaitDestinationWrite { credit: (b + t.amount) as u64 }
        },
        (Stage::AwaitDestinationWrite { .. }, Event::Done) => Stage::Finished(true),
        _ => t.stage,
    }
}

/// How many steps at most remain before stage `s` ends the transfer.
pub open spec fn steps_left(s: Stage) -> nat {
    match s {
        Stage::AwaitSource => 5,
        Stage::AwaitPause { .. } => 4,
        Stage::AwaitSourceWrite { .. } => 3,
        Stage::AwaitDestination => 2,
        Stage::AwaitDestinationWrite { .. } => 1,
        Stage::Finished(_) => 0,
        Stage::Aborted => 0,
    }
}

/// Balances and result of one transfer of `m` from a source holding `a` to a
/// destination holding `b`, with no other transfer in between.
pub open spec fn serial_transfer(a: u64, b: u64, m: u64) -> (u64, u64, Result<bool, TransferError>) {
    if a < m {
        (a, b, Ok(false))
    } else if b + m > u64::MAX {
        ((a - m) as u64, b, Err(TransferError::Overflow))
    } else {
        ((a - m) as u64, (b + m) as u64, Ok(true))
    }
}

/// Balances after the transfers of `amounts`, in order, one after another.
pub open spec fn run_serial(a: u64, b: u64, amounts: Seq<u64>) -> (u64, u64)
    decreases amounts.len(),
{
    if amounts.len() == 0 {
        (a, b)
    } else {
        let (a1, b1, _) = serial_transfer(a, b, amounts[0]);
        run_serial(a1, b1, amounts.drop_first())
    }
}

/// What the balances are at each stage of a transfer of `t.amount` from `a0`
/// to `b0` that nothing else interferes with.
spec fn serial_progress(t: Transfer, a0: u64, b0: u64, from: u64, to: u64) -> bool {
    let m = t.amount;
    match t.stage {
        Stage::AwaitSource => from == a0 && to == b0,
        Stage::AwaitPause { debit } => a0 >= m && debit == a0 - m && from == a0 && to == b0,
        Stage::AwaitSourceWrite { debit } => a0 >= m && debit == a0 - m && from == a0 && to
            == b0,
        Stage::AwaitDestination => a0 >= m && from == a0 - m && to == b0,
        Stage::AwaitDestinationWrite { credit } => a0 >= m && b0 + m <= u64::MAX && credit == b0
            + m && from == a0 - m && to == b0,
        Stage::Finished(moved) => if moved {
            a0 >= m && b0 + m <= u64::MAX && from == a0 - m && to == b0 + m
        } else {
            a0 < m && from == a0 && to == b0
        },
        Stage::Aborted => a0 >= m && b0 + m > u64::MAX && from == a0 - m && to == b0,
    }
}

/// Moves `amount` from `from` to `to`, running the transfer protocol against
/// two balances held in memory.
pub fn transfer_balances(from: &mut u64, to: &mut u64, amount: u64) -> (r: Result<bool, TransferError>)
    ensures
        (*final(from), *final(to), r) == serial_transfer(*old(from), *old(to), amount),
        amount <= *old(from) && *old(to) + amount <= u64::MAX ==> r == Ok::<bool, TransferError>(true) && *final(from)
            == *old(from) - amount && *final(to) == *old(to) + amount,
        amount > *old(from) ==> r == Ok::<bool, TransferError>(false) && *final(from) == *old(from) && *final(to)
            == *old(to),
{
    let ghost a0 = *from;
    let ghost b0 = *to;
    let (mut t, mut action) = Transfer::start(amount);
    loop
        invariant
            t.amount == amount,
            a0 == *old(from),
            b0 == *old(to),
            action == pending(t.stage),
            serial_progress(t, a0, b0, *from, *to),
        decreases steps_left(t.stage),
    {
        match action {
            Action::ReadSource => {
                action = t.step(Event::Balance(*from));
            },
            Action::Pause => {
                action = t.step(Event::Done);
            },
            Action::WriteSource(v) => {
                *from = v;
                action = t.step(Event::Done);
            },
            Action::ReadDestination => {
                action = t.step(Event::Balance(*to));
            },
            Action::WriteDestination(v) => {
                *to = v;
                action = t.step(Event::Done);
            },
            Action::Finish(moved) => {
                assert(t.stage == Stage::Finished(moved));
                return Ok(moved);
            },
            Action::Overflow => {
                return Err(TransferError::Overflow);
            },
        }
    }
}

/// Transfers run one after another neither create nor destroy funds, as long
/// as the two balances together fit in a `u64`.
pub proof fn lemma_serial_conservation(a: u64, b: u64, amounts: Seq<u64>)
    requires
        a + b <= u64::MAX,
    ensures
        run_serial(a, b, amounts).0 + run_serial(a, b, amounts).1 == a + b,
    decreases amounts.len(),
{
    if amounts.len() > 0 {
        let (a1, b1, _) = serial_transfer(a, b, amounts[0]);
        lemma_serial_conservation(a1, b1, amounts.drop_first());
    }
}

/// `n` transfers of `m` each, run one after another from a source that holds
/// at least `n * m`, all move their amount: the source ends `n * m` lower and
/// the destination `n * m` higher.
pub proof fn lemma_serial_repeated(a: u64, b: u64, m: u64, n: nat)
    requires
        n * m <= a,
        b + n * m <= u64::MAX,
    ensures
        run_serial(a, b, Seq::new(n, |i: int| m)) == ((a - n * m) as u64, (b + n * m) as u64),
    decreases n,
{
    let ms = Seq::new(n, |i: int| m);
    if n == 0 {
        assert(ms.len() == 0);
        assert(n * m == 0) by (nonlinear_arith)
            requires
                n == 0,
        ;
    } else {
        assert(n * m == m + (n - 1) * m && (n - 1) * m >= 0) by (nonlinear_arith)
            requires
                n > 0,
        ;
        assert(ms[0] == m);
        assert(serial_transfer(a, b, m) == ((a - m) as u64, (b + m) as u64, Ok::<
            bool,
            TransferError,
        >(true)));
        assert(ms.drop_first() =~= Seq::new((n - 1) as nat, |i: int| m));
        lemma_serial_repeated((a - m) as u64, (b + m) as u64, m, (n - 1) as nat);
        assert(run_serial(a, b, ms) == run_serial((a - m) as u64, (b + m) as u64, ms.drop_first()));
        assert(run_serial(a, b, ms) == ((a - n * m) as u64, (b + n * m) as u64));
    }
}

/// Two transfers of the same amount that both read the source before either
/// writes its debit both pass the funds check and both write the same
/// debited balance: the second debit overwrites the first, and the source
/// loses only one amount although two were credited.
pub proof fn lemma_stale_debit(t1: Transfer, t2: Transfer, balance: u64)
    requires
        t1.stage == Stage::AwaitSource,
        t2.stage == Stage::AwaitSource,
        t1.amount == t2.amount,
        t1.amount <= balance,
    ensures
        ({
            let s1 = next_stage(t1, Event::Balance(balance));
            let s2 = next_stage(t2, Event::Balance(balance));
            &&& next_stage(Transfer { stage: s1, ..t1 }, Event::Done) == Stage::AwaitSourceWrite {
                debit: (balance - t1.amount) as u64,
            }
            &&& next_stage(Transfer { stage: s2, ..t2 }, Event::Done) == Stage::AwaitSourceWrite {
                debit: (balance - t1.amount) as u64,
            }
        }),
{
}

impl Transfer {
    /// A transfer of `amount` that has done nothing yet, and its first
    /// action: read the source's balance.
    pub fn start(amount: u64) -> (r: (Transfer, Action))
        ensures
            r.0 == (Transfer { amount, stage: Stage::AwaitSource }),
            r.1 == Action::ReadSource,
    {
        (Transfer { amount, stage: Stage::AwaitSource }, Action::ReadSource)
    }

    /// Takes the outcome of the pending action and returns the next one.
    pub fn step(&mut self, e: Event) -> (a: Action)
        ensures
            final(self).amount == old(self).amount,
            final(self).stage == next_stage(*old(self), e),
            a == pending(final(self).stage),
    {
        let amount = self.amount;
        let stage = match (self.stage, e) {
            (Stage::AwaitSource, Event::Balance(b)) => if b < amount {
                Stage::Finished(false)
            } else {
                Stage::AwaitPause { debit: b - amount }
            },
            (Stage::AwaitPause { debit }, Event::Done) => Stage::AwaitSourceWrite { debit },
            (Stage::AwaitSourceWrite { .. }, Event::Done) => Stage::AwaitDestination,
            (Stage::AwaitDestination, Event::Balance(b)) => match b.checked_add(amount) {
                Some(credit) => Stage::AwaitDestinationWrite { credit },
                None => Stage::Aborted,
            },
            (Stage::AwaitDestinationWrite { .. }, Event::Done) => Stage::Finished(true),
            (s, _) => s,
        };
        self.stage = stage;
        self.action()
    }

    /// The action that this transfer is waiting on.
    pub fn action(&self) -> (a: Action)
        ensures
            a == pending(self.stage),
    {
        match self.stage {
            Stage::AwaitSource => Action::ReadSource,
            Stage::AwaitPause { .. } => Action::Pause,
            Stage::AwaitSourceWrite { debit } => Action::WriteSource(debit),
            Stage::AwaitDestination => Action::ReadDestination,
            Stage::AwaitDestinationWrite { credit } => Action::WriteDestination(credit),
            Stage::Finished(moved) => Action::Finish(moved),
            Stage::Aborted => Action::Overflow,
        }
    }
}

} // verus!
