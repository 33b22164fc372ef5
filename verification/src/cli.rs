//! The management CLI's command grammar. Argument parsing, authentication
//! and the socket conversation are the runtime's part.

use vstd::prelude::*;

verus! {

/// One management command as carried over the IPC envelope.
pub enum Commands {
    Status,
    Rotate { force: bool },
    Invalidate { version: u64, reason: Option<String>, confirm: bool },
    Logs { tail: usize, event: Option<String>, level: Option<String>, since: Option<String> },
    Metrics,
    DegradedMode { enable: bool, disable: bool, reason: Option<String> },
    TpmStatus,
    Reset { confirm: bool, confirm_again: bool },
}

/// The CLI invocation: a command plus the authentication material and the
/// socket to talk to.
pub struct Cli {
    pub command: Commands,
    pub cert: Option<String>,
    pub key: Option<String>,
    pub token: Option<String>,
    pub socket: String,
}

impl Cli {
    /// Invalidation requires explicit confirmation; reset requires it
    /// twice; degraded-mode changes need a direction and, to enable, a
    /// reason.
    pub fn command_allowed(&self) -> (r: bool)
        ensures
            r == match self.command {
                Commands::Invalidate { version, reason, confirm } => confirm,
                Commands::Reset { confirm, confirm_again } => confirm && confirm_again,
                Commands::DegradedMode { enable, disable, reason } => !(enable && disable) && (
                enable ==> reason is Some),
                _ => true,
            },
    {
        match &self.command {
            Commands::Invalidate { version, reason, confirm } => *confirm,
            Commands::Reset { confirm, confirm_again } => *confirm && *confirm_again,
            Commands::DegradedMode { enable, disable, reason } => !(*enable && *disable) && (
            !*enable || matches!(reason, Some(_))),
            _ => true,
        }
    }
}

} // verus!
