pub mod account;
pub mod amount;
pub mod client;
pub mod report;
pub mod trade;
