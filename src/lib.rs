//! Anchoring an election's audit data in a public ledger, and tallying the
//! votes that the ledger holds.
use vstd::prelude::*;

pub mod ballot;
pub mod codec;
pub mod commitment;
pub mod ledger;
pub mod merkle;
pub mod tally;

verus! {

/// The block number at which `value` was anchored. Not tracked: always 0.
pub fn retrieve_from_chain(value: Vec<u8>) -> (r: u64)
    ensures
        r == 0,
{
    let _value = value;
    0
}

} // verus!
