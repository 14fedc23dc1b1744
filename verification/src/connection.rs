//! One tunnel: an SSH port forward to a remote host, and the process that
//! carries it.

use vstd::prelude::*;
use vstd::string::*;
use crate::key::{decimal, format_key, key_of, push_decimal};
use crate::link::{parse_link, LinkError, UrlParts};
use crate::status::ConnectionStatus;

verus! {

/// A tunnel to `host` that forwards `port`, opened for the notebook at
/// `link`. `pid` is the process that carries it, as far as one is tracked.
#[derive(Debug, Clone, PartialEq, Eq)]
pub struct Connection {
    pub host: String,
    pub port: u16,
    pub link: String,
    pub pid: Option<u32>,
    pub token: String,
}

/// The mathematical value of a [`Connection`].
pub struct ConnectionView {
    pub host: Seq<char>,
    pub port: u16,
    pub link: Seq<char>,
    pub pid: Option<u32>,
    pub token: Seq<char>,
}

impl View for Connection {
    type V = ConnectionView;

    open spec fn view(&self) -> ConnectionView {
        ConnectionView {
            host: self.host@,
            port: self.port,
            link: self.link@,
            pid: self.pid,
            token: self.token@,
        }
    }
}

impl ConnectionView {
    /// The key under which this tunnel is registered.
    pub open spec fn key(self) -> Seq<char> {
        key_of(self.host, self.port)
    }

    /// The status, given what the operating system says of the process.
    pub open spec fn status(self, alive: bool) -> ConnectionStatus {
        ConnectionStatus::of(self.pid, alive)
    }

    /// The process to show to the user: the tracked one, if it lives.
    pub open spec fn live_pid(self, alive: bool) -> Option<u32> {
        if alive {
            self.pid
        } else {
            None
        }
    }

    /// The same tunnel with no process tracked.
    pub open spec fn closed(self) -> ConnectionView {
        ConnectionView { pid: None, ..self }
    }
}

/// The tunnel that `link` and `host` describe once process `pid` carries it.
pub open spec fn started(link: Seq<char>, host: Seq<char>, pid: u32) -> Result<
    ConnectionView,
    LinkError,
> {
    match parse_link(link) {
        Ok(parts) => Ok(
            ConnectionView { host, port: parts.port, link, pid: Some(pid), token: parts.token },
        ),
        Err(e) => Err(e),
    }
}

/// The view of a tunnel or the reason there is none.
pub open spec fn started_view(r: Result<Connection, LinkError>) -> Result<
    ConnectionView,
    LinkError,
> {
    match r {
        Ok(c) => Ok(c@),
        Err(e) => Err(e),
    }
}

/// The shell command that forwards `port` to `host`.
pub open spec fn forward_command_text(host: Seq<char>, port: u16) -> Seq<char> {
    "ssh -Y -N -L localhost:"@ + decimal(port as nat) + ":localhost:"@ + decimal(port as nat)
        + " "@ + host
}

impl Connection {
    /// Describes the tunnel for `link` on `host` whose forwarding process
    /// has been started as `pid`. Fails as [`UrlParts::parse`] does.
    pub fn new(link: &str, host: &str, pid: u32) -> (made: Result<Connection, LinkError>)
        ensures
            started_view(made) == started(link@, host@, pid),
    {
        match UrlParts::parse(link) {
            Ok(parts) => Ok(
                Connection {
                    host: host.to_string(),
                    port: parts.port,
                    link: link.to_string(),
                    pid: Some(pid),
                    token: parts.token,
                },
            ),
            Err(e) => Err(e),
        }
    }

    /// The process to show for this tunnel: the tracked one while it is
    /// connected, none otherwise, even where a dead one is still on record.
    /// `alive` is the operating system's word on the tracked process.
    pub fn get_pid(&self, alive: bool) -> (pid: Option<u32>)
        ensures
            pid == self@.live_pid(alive),
            pid.is_some() <==> self@.status(alive) == ConnectionStatus::Connected,
    {
        match self.status(alive) {
            ConnectionStatus::Disconnected => None,
            ConnectionStatus::Connected => self.pid,
        }
    }

    /// Connected where a process is tracked and `alive` says it runs.
    /// The record itself is left as it is.
    pub fn status(&self, alive: bool) -> (status: ConnectionStatus)
        ensures
            status == self@.status(alive),
    {
        match self.pid {
            None => ConnectionStatus::Disconnected,
            Some(_) => if alive {
                ConnectionStatus::Connected
            } else {
                ConnectionStatus::Disconnected
            },
        }
    }

    /// Whether a process is tracked and `alive` says it runs.
    pub fn is_alive(&self, alive: bool) -> (running: bool)
        ensures
            running == (self.pid.is_some() && alive),
    {
        match self.pid {
            None => false,
            Some(_) => alive,
        }
    }

    /// The key under which this tunnel is registered.
    pub fn key(&self) -> (key: String)
        ensures
            key@ == self@.key(),
    {
        format_key(self.host.as_str(), self.port)
    }

    /// Ends the tracking of this tunnel's process and names the process
    /// that must be sent a termination signal: the tracked one if `alive`
    /// says it runs, none where nothing is tracked or it is dead already.
    pub fn kill_connection(&mut self, alive: bool) -> (signal: Option<u32>)
        ensures
            final(self)@ == old(self)@.closed(),
            signal == old(self)@.live_pid(alive),
    {
        let signal = self.get_pid(alive);
        self.pid = None;
        signal
    }

    /// The shell command whose process forwards `port` to `host`.
    pub fn forward_command(host: &str, port: u16) -> (command: String)
        ensures
            command@ == forward_command_text(host@, port),
    {
        let mut command = "ssh -Y -N -L localhost:".to_string();
        push_decimal(&mut command, port as u32);
        command.append(":localhost:");
        push_decimal(&mut command, port as u32);
        command.append(" ");
        command.append(host);
        command
    }

    /// A copy of this record.
    pub fn duplicate(&self) -> (copy: Connection)
        ensures
            copy == *self,
    {
        Connection {
            host: self.host.clone(),
            port: self.port,
            link: self.link.clone(),
            pid: self.pid,
            token: self.token.clone(),
        }
    }
}

} // verus!
