pub mod engine;
pub mod filter;
pub mod git;
pub mod runner;
pub mod verify;
