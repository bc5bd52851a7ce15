//! Fund transfers between two durable account balances.
//!
//! `record` holds the storage format of a balance: one eight-byte big-endian
//! record. `transfer` holds the transfer protocol as a step machine, an
//! in-memory runner of it, and the laws that a serialized run obeys.
use vstd::prelude::*;

pub mod record;
pub mod transfer;

verus! {

} // verus!
