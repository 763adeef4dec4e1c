//! Program-controlled custody: derived addresses, guarded byte buffers and an
//! exchange booth that holds two currencies in derived vaults.

pub mod account;
pub mod address;
pub mod conversion;
pub mod echo;
pub mod error;
pub mod exchange_booth;
pub mod initialize_exchange_booth;
pub mod instruction;
pub mod mint;
pub mod state;
pub mod token;
