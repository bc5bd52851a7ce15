//! The stored form of a balance: exactly eight bytes, big-endian, no header.
use vstd::arithmetic::div_mod::{lemma_div_denominator, lemma_mod_breakdown};
use vstd::prelude::*;

verus! {

/// Number of bytes in a stored balance.
pub const RECORD_LEN: usize = 8;

/// `256` raised to the power `k`: the weight of the byte `k` places from the
/// low end.
pub open spec fn place(k: nat) -> nat
    decreases k,
{
    if k == 0 {
        1
    } else {
        place((k - 1) as nat) * 256
    }
}

/// The byte `k` places from the low end of `v`.
pub open spec fn digit(v: nat, k: nat) -> u8 {
    ((v / place(k)) % 256) as u8
}

/// The low `n` bytes of `v`, most significant first.
pub open spec fn be_bytes(v: nat, n: nat) -> Seq<u8> {
    Seq::new(n, |j: int| digit(v, (n - 1 - j) as nat))
}

/// The number that the bytes of `s` spell, most significant first.
pub open spec fn be_value(s: Seq<u8>) -> nat
    decreases s.len(),
{
    if s.len() == 0 {
        0
    } else {
        be_value(s.drop_last()) * 256 + s.last() as nat
    }
}

/// Why a stored record could not be read as a balance.
#[derive(Debug, Clone, Copy, PartialEq, Eq, Structural)]
pub enum RecordError {
    /// Fewer than eight bytes were present.
    Malformed,
}

pub proof fn lemma_place_positive(k: nat)
    ensures
        place(k) > 0,
    decreases k,
{
    if k > 0 {
        lemma_place_positive((k - 1) as nat);
    }
}

pub proof fn lemma_place_monotone(i: nat, k: nat)
    requires
        i <= k,
    ensures
        place(i) <= place(k),
    decreases k,
{
    if i < k {
        lemma_place_monotone(i, (k - 1) as nat);
        lemma_place_positive((k - 1) as nat);
    }
}

pub proof fn lemma_place_eight()
    ensures
        place(8) == 0x1_0000_0000_0000_0000,
{
    reveal_with_fuel(place, 9);
}

/// A value spelled by `n` bytes is below `256` to the `n`.
pub proof fn lemma_value_bound(s: Seq<u8>)
    ensures
        be_value(s) < place(s.len()),
    decreases s.len(),
{
    if s.len() > 0 {
        lemma_value_bound(s.drop_last());
        assert(be_value(s.drop_last()) + 1 <= place((s.len() - 1) as nat));
        assert((be_value(s.drop_last()) + 1) * 256 <= place((s.len() - 1) as nat) * 256)
            by (nonlinear_arith)
            requires
                be_value(s.drop_last()) + 1 <= place((s.len() - 1) as nat),
        ;
    }
}

/// Dropping the lowest byte of `v`'s low `n` bytes leaves the low `n - 1`
/// bytes of `v / 256`.
proof fn lemma_bytes_drop_last(v: nat, n: nat)
    requires
        n > 0,
    ensures
        be_bytes(v, n).drop_last() =~= be_bytes(v / 256, (n - 1) as nat),
        be_bytes(v, n).last() == (v % 256) as u8,
{
    assert forall|j: int| 0 <= j < n - 1 implies be_bytes(v, n)[j] == be_bytes(
        v / 256,
        (n - 1) as nat,
    )[j] by {
        let k = (n - 2 - j) as nat;
        lemma_place_positive(k);
        lemma_div_denominator(v as int, 256, place(k) as int);
        assert(place(k + 1) == 256 * place(k));
    }
    assert(place(0) == 1);
}

/// Spelling the low `n` bytes of `v` gives back `v` modulo `256` to the `n`.
pub proof fn lemma_value_of_bytes(v: nat, n: nat)
    ensures
        be_value(be_bytes(v, n)) == v % place(n),
    decreases n,
{
    if n == 0 {
        assert(be_bytes(v, n).len() == 0);
    } else {
        let m = (n - 1) as nat;
        lemma_bytes_drop_last(v, n);
        lemma_value_of_bytes(v / 256, m);
        lemma_place_positive(m);
        lemma_mod_breakdown(v as int, 256, place(m) as int);
        assert(place(n) == 256 * place(m));
    }
}

/// Writing a balance and reading the record back gives the same balance: the
/// first eight bytes of its record spell exactly `value`.
pub proof fn lemma_round_trip(value: u64)
    ensures
        be_value(be_bytes(value as nat, 8).take(RECORD_LEN as int)) == value,
{
    assert(be_bytes(value as nat, 8).take(8) =~= be_bytes(value as nat, 8));
    lemma_value_of_bytes(value as nat, 8);
    lemma_place_eight();
}

/// The record that stores `value`.
pub fn encode_balance(value: u64) -> (bytes: Vec<u8>)
    ensures
        bytes@ == be_bytes(value as nat, RECORD_LEN as nat),
{
    let mut bytes: Vec<u8> = Vec::new();
    let mut rest: u64 = value;
    let mut i: usize = 0;
    proof {
        assert(place(0) == 1);
        assert(bytes@ =~= be_bytes(value as nat, 0));
    }
    while i < RECORD_LEN
        invariant
            i <= RECORD_LEN,
            rest == value as nat / place(i as nat),
            bytes@ == be_bytes(value as nat, i as nat),
        decreases RECORD_LEN - i,
    {
        let b = (rest % 256) as u8;
        proof {
            lemma_place_positive(i as nat);
            lemma_div_denominator(value as int, place(i as nat) as int, 256);
            assert(be_bytes(value as nat, (i + 1) as nat) =~= seq![b] + bytes@);
        }
        bytes.insert(0, b);
        rest = rest / 256;
        i = i + 1;
    }
    bytes
}

/// The balance that `record` stores: its first eight bytes, big-endian.
/// A record with fewer than eight bytes is malformed; bytes past the eighth
/// are not read.
pub fn decode_balance(record: &[u8]) -> (r: Result<u64, RecordError>)
    ensures
        match r {
            Ok(v) => record@.len() >= RECORD_LEN && v == be_value(record@.take(RECORD_LEN as int)),
            Err(e) => record@.len() < RECORD_LEN && e == RecordError::Malformed,
        },
{
    if record.len() < RECORD_LEN {
        return Err(RecordError::Malformed);
    }
    let mut value: u64 = 0;
    let mut i: usize = 0;
    while i < RECORD_LEN
        invariant
            i <= RECORD_LEN <= record@.len(),
            value == be_value(record@.take(i as int)),
        decreases RECORD_LEN - i,
    {
        proof {
            assert(record@.take(i + 1).drop_last() =~= record@.take(i as int));
            lemma_value_bound(record@.take(i as int));
            lemma_place_monotone((i + 1) as nat, 8);
            lemma_place_eight();
            assert(value * 256 + 255 < 0x1_0000_0000_0000_0000) by (nonlinear_arith)
                requires
                    value < place(i as nat),
                    place(i as nat) * 256 <= 0x1_0000_0000_0000_0000,
            ;
        }
        value = value * 256 + record[i] as u64;
        i = i + 1;
    }
    Ok(value)
}

} // verus!
