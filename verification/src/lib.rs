//! A custodial fundraising escrow.
//!
//! An authority registers a funding project with a target amount, independent
//! investors contribute value up to that target, and the authority withdraws
//! the pooled funds. Every resource — the project record, each investment
//! receipt, the custody vault — lives at a storage location derived
//! deterministically from the project's identifier and a role tag, so no
//! directory structure is needed. Each operation is one atomic transition:
//! it either takes full effect or leaves the state untouched.

pub mod addresses;
pub mod errors;
pub mod escrow;
pub mod laws;
pub mod records;
pub mod store;
