//! An invoice-financing ledger: businesses register invoices, investors bid on
//! them and fund them through escrow, and proceeds are settled with a fee
//! split. Every mutation of an invoice is mirrored into an append-only audit
//! log.
//!
//! The ledger owns all of its state. What the hosting environment provides
//! (the clock, the authorisation of callers, the movement of funds) reaches it
//! as plain values.

pub mod types;
pub mod keys;
pub mod table;
pub mod identifiers;
pub mod errors;
pub mod profits;
pub mod text;
pub mod invoice;
pub mod audit;
pub mod bid;
pub mod investment;
pub mod payments;
pub mod backup;
pub mod verification;
pub mod contract;
pub mod settlement;
pub mod defaults;
