pub mod configure;
pub mod deploy;
pub mod logging;
pub mod notify;
pub mod patterns;
pub mod state;
pub mod text;
pub mod webhook;
