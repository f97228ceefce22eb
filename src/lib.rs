//! Ledger-side logic of a lock-and-mint asset bridge: the instruction codec,
//! the binary layouts of the bridge's records, the decimal rescaler and the
//! processor that decides every state transition.

pub mod address;
pub mod bytes;
pub mod error;
pub mod instruction;
pub mod processor;
pub mod state;
pub mod types;
mod wide;
