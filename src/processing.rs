pub mod engine;
pub mod wallet;
pub mod worker;
pub mod laws;
