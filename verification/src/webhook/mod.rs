pub mod payload;
pub mod signature;
pub mod handler;
