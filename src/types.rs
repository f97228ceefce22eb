use vstd::prelude::*;

verus! {

/// Length in bytes of an address on the destination chain.
pub const DESTINATION_CHAIN_ADDRESS_LEN: usize = 32;

} // verus!
