pub mod calendar;
pub mod cleaner;
pub mod project_log;
pub mod verbosity;
