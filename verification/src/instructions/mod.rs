//! The instructions of the program, each as a step of the program's state.
pub mod accounts;
pub mod initialize_registry;
pub mod governance;
pub mod cancel_transaction;
pub mod revoke_signature;
pub mod execute_transaction;
pub mod sign_transaction;
pub mod propose_transaction;
pub mod create_maj;
