//! The records the program keeps: the registry, the wallets and their name,
//! admin and blacklist records, and the transactions with their signatures.
pub mod instance;
pub mod registry;
pub mod transaction;
