//! Daemon configuration.
//!
//! The values themselves are loaded from the environment by the surrounding
//! program; this record only carries them, with the defaults stated
//! exactly.

use vstd::prelude::*;

verus! {

/// The daemon's settings: where it listens, which session it uses by
/// default, and the bounds of the completion wait.
#[derive(Debug, Clone)]
pub struct Config {
    pub socket_path: String,
    pub default_session: String,
    pub max_buffer_size: usize,
    pub default_capture_lines: i64,
    pub terminal_emulator: Option<String>,
    pub max_wait_seconds: u64,
    pub poll_interval_ms: u64,
}

impl Default for Config {
    /// The built-in defaults, used when the environment sets nothing.
    fn default() -> (c: Config)
        ensures
            c.socket_path@ == "/tmp/archy.sock"@,
            c.default_session@ == "archy_session"@,
            c.max_buffer_size == 8192,
            c.default_capture_lines == 100,
            c.terminal_emulator is None,
            c.max_wait_seconds == 600,
            c.poll_interval_ms == 500,
    {
        Config {
            socket_path: "/tmp/archy.sock".to_owned(),
            default_session: "archy_session".to_owned(),
            max_buffer_size: 8192,
            default_capture_lines: 100,
            terminal_emulator: None,
            max_wait_seconds: 600,
            poll_interval_ms: 500,
        }
    }
}

} // verus!
