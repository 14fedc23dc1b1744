//! The requests a user can make, and the operation each one begins.

use vstd::prelude::*;
use vstd::string::*;
use crate::cache::{distinct_keys, keys_of, ConnectionCache};
use crate::connection::ConnectionView;
use crate::error::{CacheError, CacheErrorView};
use crate::machine::{advance, listing, open_tunnel};
use crate::step::{done, BatchView, Kind, Outcome, Step, StepView};

verus! {

/// A request of the user.
#[derive(Debug, Clone, PartialEq, Eq)]
pub enum Command {
    /// Open a tunnel to `host` for the notebook at `link`.
    New { link: String, host: String },
    /// Show all tunnels.
    List,
    /// Drop the tunnel with this key, or all of them.
    Drop { key: Option<String>, all: bool },
    /// Reconnect the tunnel with this key, or all where none is named.
    Rc { key: Option<String> },
    /// Disconnect the tunnel with this key, or all where none is named.
    Dc { key: Option<String> },
}

/// The mathematical value of a [`Command`].
pub enum CommandView {
    New { link: Seq<char>, host: Seq<char> },
    List,
    Drop { key: Option<Seq<char>>, all: bool },
    Rc { key: Option<Seq<char>> },
    Dc { key: Option<Seq<char>> },
}

/// The view of a key that may be missing.
pub open spec fn key_view(key: Option<String>) -> Option<Seq<char>> {
    match key {
        Some(k) => Some(k@),
        None => None,
    }
}

impl View for Command {
    type V = CommandView;

    open spec fn view(&self) -> CommandView {
        match self {
            Command::New { link, host } => CommandView::New { link: link@, host: host@ },
            Command::List => CommandView::List,
            Command::Drop { key, all } => CommandView::Drop { key: key_view(*key), all: *all },
            Command::Rc { key } => CommandView::Rc { key: key_view(*key) },
            Command::Dc { key } => CommandView::Dc { key: key_view(*key) },
        }
    }
}

/// The keys that a request is about: the one it names, or all.
pub open spec fn chosen(cache: Seq<ConnectionView>, key: Option<Seq<char>>) -> Seq<Seq<char>> {
    match key {
        Some(k) => seq![k],
        None => keys_of(cache),
    }
}

impl CommandView {
    /// Whether the registry is written back once the request has been
    /// carried out: after all but listing and disconnecting.
    pub open spec fn saves(self) -> bool {
        self is New || self is Drop || self is Rc
    }

    /// The registry and the first step after the request has begun. A
    /// request that is not clear changes nothing and fails.
    pub open spec fn begun(self, cache: Seq<ConnectionView>) -> (Seq<ConnectionView>, StepView) {
        match self {
            CommandView::New { link, host } => (
                cache,
                open_tunnel(cache, host, link, BatchView::fresh(Kind::Create, Seq::empty())),
            ),
            CommandView::List => (cache, listing(cache)),
            CommandView::Drop { key, all } => if key.is_some() != all {
                advance(cache, BatchView::fresh(Kind::Drop, chosen(cache, key)))
            } else {
                (cache, done(Seq::empty(), Err(CacheErrorView::AmbiguousArguments)))
            },
            CommandView::Rc { key } => advance(
                cache,
                BatchView::fresh(Kind::Reconnect, chosen(cache, key)),
            ),
            CommandView::Dc { key } => advance(
                cache,
                BatchView::fresh(Kind::Disconnect, chosen(cache, key)),
            ),
        }
    }
}

impl Command {
    /// Whether the registry is to be written back after this request has
    /// been carried out without failure.
    pub fn saves(&self) -> (saves: bool)
        ensures
            saves == self@.saves(),
    {
        match self {
            Command::New { .. } => true,
            Command::List => false,
            Command::Drop { .. } => true,
            Command::Rc { .. } => true,
            Command::Dc { .. } => false,
        }
    }
}

/// Begins to carry out a request on the registry.
///
/// A request to drop must name either one key or all tunnels; one that
/// names both, or neither, fails with `AmbiguousArguments` and leaves the
/// registry as it is.
pub fn run(cache: &mut ConnectionCache, command: &Command) -> (step: Step)
    ensures
        (final(cache)@, step@) == command@.begun(old(cache)@),
        distinct_keys(final(cache)@),
{
    cache.recall_distinct();
    match command {
        Command::New { link, host } => cache.new_connection(link.as_str(), host.as_str()),
        Command::List => cache.list(),
        Command::Drop { key, all } => match key {
            Some(k) => if *all {
                ambiguous()
            } else {
                cache.drop_connection(k.as_str())
            },
            None => if *all {
                cache.drop_all_connections()
            } else {
                ambiguous()
            },
        },
        Command::Rc { key } => match key {
            Some(k) => cache.reconnect(k.as_str()),
            None => cache.reconnect_all(),
        },
        Command::Dc { key } => match key {
            Some(k) => cache.disconnect(k.as_str()),
            None => cache.disconnect_all(),
        },
    }
}

/// The end of a request that does not say clearly what to drop.
fn ambiguous() -> (step: Step)
    ensures
        step@ == done(Seq::empty(), Err(CacheErrorView::AmbiguousArguments)),
{
    let step = Step::Done(
        Outcome { notices: Vec::new(), result: Err(CacheError::AmbiguousArguments) },
    );
    assert(step@->Done_0.notices =~= Seq::empty());
    step
}

} // verus!
