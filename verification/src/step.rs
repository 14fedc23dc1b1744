//! What passes between the registry and its caller while an operation is
//! under way: requests to the operating system, and what there is to tell
//! the user.

use vstd::prelude::*;
use vstd::string::*;
use crate::cache::key_views;
use crate::connection::{Connection, ConnectionView};
use crate::error::{CacheError, CacheErrorView};
use crate::key::{decimal, key_of, push_decimal};
use crate::status::ConnectionStatus;

verus! {

/// One line of the listing: a tunnel as the user sees it.
#[derive(Debug, Clone, PartialEq, Eq)]
pub struct Row {
    pub key: String,
    /// The tunnel's process, shown only while it is connected.
    pub pid: Option<u32>,
    pub status: ConnectionStatus,
    pub link: String,
}

/// The mathematical value of a [`Row`].
pub struct RowView {
    pub key: Seq<char>,
    pub pid: Option<u32>,
    pub status: ConnectionStatus,
    pub link: Seq<char>,
}

impl View for Row {
    type V = RowView;

    open spec fn view(&self) -> RowView {
        RowView { key: self.key@, pid: self.pid, status: self.status, link: self.link@ }
    }
}

impl RowView {
    /// The text of the process column: the number, or a blank.
    pub open spec fn pid_text(self) -> Seq<char> {
        match self.pid {
            Some(pid) => decimal(pid as nat),
            None => " "@,
        }
    }
}

impl Row {
    /// The text of the process column: the number, or a blank where no
    /// live process is to be shown.
    pub fn pid_cell(&self) -> (text: String)
        ensures
            text@ == self@.pid_text(),
    {
        match self.pid {
            Some(pid) => {
                let mut text = String::new();
                push_decimal(&mut text, pid);
                assert(text@ =~= decimal(pid as nat));
                text
            },
            None => " ".to_string(),
        }
    }
}

/// Something to tell the user about what an operation did.
#[derive(Debug, Clone, PartialEq, Eq)]
pub enum Notice {
    /// The registry holds no tunnel.
    NoSessions,
    /// A tunnel had no running process left to end.
    AlreadyClosed,
    /// The process of a tunnel was told to end.
    Disconnected { host: String, port: u16, pid: u32 },
    /// A tunnel got a new process.
    Reconnected { key: String },
    /// A tunnel was registered.
    Created { host: String, port: u16 },
    /// A tunnel as the listing shows it.
    Listed(Row),
}

/// The mathematical value of a [`Notice`].
pub enum NoticeView {
    NoSessions,
    AlreadyClosed,
    Disconnected { host: Seq<char>, port: u16, pid: u32 },
    Reconnected { key: Seq<char> },
    Created { host: Seq<char>, port: u16 },
    Listed(RowView),
}

impl View for Notice {
    type V = NoticeView;

    open spec fn view(&self) -> NoticeView {
        match self {
            Notice::NoSessions => NoticeView::NoSessions,
            Notice::AlreadyClosed => NoticeView::AlreadyClosed,
            Notice::Disconnected { host, port, pid } => NoticeView::Disconnected {
                host: host@,
                port: *port,
                pid: *pid,
            },
            Notice::Reconnected { key } => NoticeView::Reconnected { key: key@ },
            Notice::Created { host, port } => NoticeView::Created { host: host@, port: *port },
            Notice::Listed(row) => NoticeView::Listed(row@),
        }
    }
}

impl NoticeView {
    /// The sentence shown for this notice. A row of the listing is shown in
    /// a table and has no sentence.
    pub open spec fn text(self) -> Option<Seq<char>> {
        match self {
            NoticeView::NoSessions => Some("No active remote Jupyter sessions."@),
            NoticeView::AlreadyClosed => Some("Connection has already closed."@),
            NoticeView::Disconnected { host, port, pid } => Some(
                "Disconnected session "@ + key_of(host, port) + " (Process ID="@ + decimal(
                    pid as nat,
                ) + ")."@,
            ),
            NoticeView::Reconnected { key } => Some("Reconnected session "@ + key + "."@),
            NoticeView::Created { host, port } => Some(
                "Created new session "@ + key_of(host, port) + "."@,
            ),
            NoticeView::Listed(_) => None,
        }
    }
}

/// The view of a text that may be missing.
pub open spec fn text_view(text: Option<String>) -> Option<Seq<char>> {
    match text {
        Some(t) => Some(t@),
        None => None,
    }
}

impl Notice {
    /// The sentence to print for this notice, if it has one.
    pub fn msg(&self) -> (text: Option<String>)
        ensures
            text_view(text) == self@.text(),
    {
        proof {
            reveal_strlit(":");
        }
        match self {
            Notice::NoSessions => Some("No active remote Jupyter sessions.".to_string()),
            Notice::AlreadyClosed => Some("Connection has already closed.".to_string()),
            Notice::Disconnected { host, port, pid } => {
                let mut text = "Disconnected session ".to_string();
                text.append(host.as_str());
                text.append(":");
                push_decimal(&mut text, *port as u32);
                text.append(" (Process ID=");
                push_decimal(&mut text, *pid);
                text.append(").");
                assert(text@ =~= "Disconnected session "@ + key_of(host@, *port)
                    + " (Process ID="@ + decimal(*pid as nat) + ")."@);
                Some(text)
            },
            Notice::Reconnected { key } => {
                let mut text = "Reconnected session ".to_string();
                text.append(key.as_str());
                text.append(".");
                Some(text)
            },
            Notice::Created { host, port } => {
                let mut text = "Created new session ".to_string();
                text.append(host.as_str());
                text.append(":");
                push_decimal(&mut text, *port as u32);
                text.append(".");
                assert(text@ =~= "Created new session "@ + key_of(host@, *port) + "."@);
                Some(text)
            },
            Notice::Listed(_) => None,
        }
    }
}

/// The views of a sequence of notices, one for one.
pub open spec fn notice_views(s: Seq<Notice>) -> Seq<NoticeView> {
    Seq::new(s.len(), |i: int| s[i]@)
}

/// What an operation does to each tunnel it is applied to.
#[derive(Debug, Clone, Copy, PartialEq, Eq, Structural)]
pub enum Kind {
    /// Register a new tunnel. Such work names no key.
    Create,
    /// Give a tunnel whose process is gone a new one.
    Reconnect,
    /// End a tunnel's process and keep the tunnel.
    Disconnect,
    /// End a tunnel's process and forget the tunnel.
    Drop,
    /// Show a tunnel.
    List,
}

/// The work that is left of an operation: the keys still to be handled, in
/// order, and the notices gathered so far.
#[derive(Debug, Clone, PartialEq, Eq)]
pub struct Batch {
    pub kind: Kind,
    pub keys: Vec<String>,
    pub notices: Vec<Notice>,
}

/// The mathematical value of a [`Batch`].
pub struct BatchView {
    pub kind: Kind,
    pub keys: Seq<Seq<char>>,
    pub notices: Seq<NoticeView>,
}

impl View for Batch {
    type V = BatchView;

    open spec fn view(&self) -> BatchView {
        BatchView {
            kind: self.kind,
            keys: key_views(self.keys@),
            notices: notice_views(self.notices@),
        }
    }
}

impl BatchView {
    /// Work of one kind on these keys, with nothing noted yet.
    pub open spec fn fresh(kind: Kind, keys: Seq<Seq<char>>) -> BatchView {
        BatchView { kind, keys, notices: Seq::empty() }
    }

    /// The same work with one more notice.
    pub open spec fn noted(self, notice: NoticeView) -> BatchView {
        BatchView { notices: self.notices.push(notice), ..self }
    }

    /// The same work without its first key.
    pub open spec fn rest(self) -> BatchView {
        BatchView { keys: self.keys.skip(1), ..self }
    }
}

/// How an operation ended: what to tell the user, and whether it failed.
#[derive(Debug, PartialEq, Eq)]
pub struct Outcome {
    pub notices: Vec<Notice>,
    pub result: Result<(), CacheError>,
}

/// The mathematical value of an [`Outcome`].
pub struct OutcomeView {
    pub notices: Seq<NoticeView>,
    pub result: Result<(), CacheErrorView>,
}

impl View for Outcome {
    type V = OutcomeView;

    open spec fn view(&self) -> OutcomeView {
        OutcomeView {
            notices: notice_views(self.notices@),
            result: match self.result {
                Ok(_) => Ok(()),
                Err(e) => Err(e@),
            },
        }
    }
}

/// An operation that waits to hear whether a tunnel's process is alive.
#[derive(Debug, Clone, PartialEq, Eq)]
pub struct Probing {
    /// The tunnel in question; its `pid` is the process to ask about.
    pub connection: Connection,
    pub batch: Batch,
}

/// The mathematical value of a [`Probing`].
pub struct ProbingView {
    pub connection: ConnectionView,
    pub batch: BatchView,
}

impl View for Probing {
    type V = ProbingView;

    open spec fn view(&self) -> ProbingView {
        ProbingView { connection: self.connection@, batch: self.batch@ }
    }
}

/// An operation that waits for a forwarding process to be started.
#[derive(Debug, Clone, PartialEq, Eq)]
pub struct Spawning {
    pub host: String,
    pub port: u16,
    pub link: String,
    pub batch: Batch,
}

/// The mathematical value of a [`Spawning`].
pub struct SpawningView {
    pub host: Seq<char>,
    pub port: u16,
    pub link: Seq<char>,
    pub batch: BatchView,
}

impl View for Spawning {
    type V = SpawningView;

    open spec fn view(&self) -> SpawningView {
        SpawningView { host: self.host@, port: self.port, link: self.link@, batch: self.batch@ }
    }
}

/// An operation that waits for a termination signal to be sent.
#[derive(Debug, Clone, PartialEq, Eq)]
pub struct Signalling {
    /// The process to signal.
    pub pid: u32,
    pub host: String,
    pub port: u16,
    pub batch: Batch,
}

/// The mathematical value of a [`Signalling`].
pub struct SignallingView {
    pub pid: u32,
    pub host: Seq<char>,
    pub port: u16,
    pub batch: BatchView,
}

impl View for Signalling {
    type V = SignallingView;

    open spec fn view(&self) -> SignallingView {
        SignallingView { pid: self.pid, host: self.host@, port: self.port, batch: self.batch@ }
    }
}

/// Where an operation stands: it needs something from the operating
/// system, or it is over.
#[derive(Debug, PartialEq, Eq)]
pub enum Step {
    /// Find out whether the tunnel's process is alive, then call
    /// `after_probe`.
    Probe(Probing),
    /// Start a forwarding process, then call `after_spawn`.
    Spawn(Spawning),
    /// Send the process a termination signal, then call `after_signal`.
    Signal(Signalling),
    /// Nothing is left to do.
    Done(Outcome),
}

/// The mathematical value of a [`Step`].
pub enum StepView {
    Probe(ProbingView),
    Spawn(SpawningView),
    Signal(SignallingView),
    Done(OutcomeView),
}

impl View for Step {
    type V = StepView;

    open spec fn view(&self) -> StepView {
        match self {
            Step::Probe(p) => StepView::Probe(p@),
            Step::Spawn(s) => StepView::Spawn(s@),
            Step::Signal(s) => StepView::Signal(s@),
            Step::Done(o) => StepView::Done(o@),
        }
    }
}

/// The end of an operation with these notices and this result.
pub open spec fn done(notices: Seq<NoticeView>, result: Result<(), CacheErrorView>) -> StepView {
    StepView::Done(OutcomeView { notices, result })
}

} // verus!
