//! A transaction ledger for client accounts: each client's balances evolve
//! through deposits, withdrawals, disputes, resolves and chargebacks, and the
//! clients are spread over shard workers by a fixed routing rule.
pub mod processing;
pub mod errors;
pub mod input;
pub mod model;
