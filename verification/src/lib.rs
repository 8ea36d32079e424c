//! PrisTimer: an anchor-based focus timer, its pomodoro cycle, and the
//! SQLite session log that survives crashes.

pub mod clock;
pub mod timer;
pub mod pomodoro;
pub mod text;
pub mod session;
pub mod db;
pub mod store;
pub mod runtime;
pub mod manager;
pub mod recorder;
pub mod insight;
pub mod http;
pub mod device;
pub mod export;
pub mod tags;
pub mod quota;
pub mod calendar;
pub mod window;
pub mod backup;
pub mod probe;
