//! A constant-product liquidity-pool engine.
//!
//! The engine keeps two kinds of accounting records: per-asset reserve
//! totals held by the pool, and per-account stake records for the two legs
//! of the pool. Participants deposit proportional amounts of both assets
//! ("add liquidity"), withdraw their proportional share ("remove
//! liquidity"), or exchange one asset for the other at the price implied by
//! the current reserves ("swap"). Pricing follows the constant-product
//! rule: a swap keeps the product of the two reserves constant, up to
//! integer-division rounding.
//!
//! Token custody itself belongs to an external asset ledger; the engine
//! only records reserve and stake numbers and asks that ledger to move
//! tokens. [`balances::Balances`] is the ledger model the contracts are
//! stated against: every operation is specified as a transition on the pair
//! of its own ledgers and that balance sheet, and every failure leaves both
//! exactly as they were.

pub mod balances;
pub mod errors;
pub mod laws;
pub mod model;
pub mod pool;
