//! Whether a tunnel's forwarding process is running.

use vstd::prelude::*;
use vstd::string::*;

verus! {

/// What a tunnel looks like from outside: its process runs, or it does not.
#[derive(Debug, Clone, Copy, PartialEq, Eq, Structural)]
pub enum ConnectionStatus {
    Connected,
    Disconnected,
}

impl ConnectionStatus {
    /// The word shown to the user for this status.
    pub open spec fn label(self) -> Seq<char> {
        match self {
            ConnectionStatus::Connected => "connected"@,
            ConnectionStatus::Disconnected => "disconnected"@,
        }
    }

    /// The status derived from a tracked process and what the operating
    /// system said of it: connected only if there is a process and it lives.
    pub open spec fn of(pid: Option<u32>, alive: bool) -> ConnectionStatus {
        if pid.is_some() && alive {
            ConnectionStatus::Connected
        } else {
            ConnectionStatus::Disconnected
        }
    }

    pub fn msg(&self) -> (text: String)
        ensures
            text@ == self.label(),
    {
        match self {
            ConnectionStatus::Connected => "connected".to_string(),
            ConnectionStatus::Disconnected => "disconnected".to_string(),
        }
    }
}

} // verus!
