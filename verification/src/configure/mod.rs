pub mod loader;
pub mod types;
pub mod watcher;
pub mod bootstrap;
