//! A verified model of the Maj multisig program: named multisig wallets whose
//! admins propose, sign, revoke, cancel and execute transactions, and whose own
//! governance (admins, threshold, blacklist) only moves through its own votes.
pub mod pubkey;
pub mod pda;
pub mod errors;
pub mod state;
pub mod events;
pub mod program;
pub mod instructions;
pub mod maj_core;
pub mod laws;
pub mod counting;
pub mod calls;
pub mod balances;
pub mod outcomes;
