//! Profile registry and tip ledger of the Tipz tipping contract, with the
//! rules that decide each operation proved against their contracts.

mod bytes;
pub mod contract;
pub mod laws;
pub mod state;
pub mod types;
pub mod validation;
