//! Verified core of a Forth plugin for the Devzat chat room.
pub mod forth;
pub mod markdown;
pub mod output;
pub mod plugin;
pub mod watchdog;

pub use forth::{HostCall, Interpreter};
pub use markdown::md_spaces;
pub use output::OutputStream;
pub use watchdog::Watchdog;
