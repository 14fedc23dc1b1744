//! What can go wrong in the registry, and how it is told to the user.

use vstd::prelude::*;
use vstd::string::*;
use crate::key::{decimal, push_decimal};
use crate::link::LinkError;

verus! {

/// The reasons for which an operation on the registry is given up.
#[derive(Debug, Clone, PartialEq, Eq)]
pub enum CacheError {
    /// A link could not be read.
    InvalidLink(LinkError),
    /// A tunnel with this key is registered already.
    DuplicateKey(String),
    /// No tunnel with this key is registered.
    KeyNotFound(String),
    /// A request names both one tunnel and all of them, or neither.
    AmbiguousArguments,
    /// The operating system could not start the forwarding process.
    Spawn,
    /// The termination signal could not be delivered to this process.
    Signal(u32),
    /// The stored registry does not describe a valid registry.
    CorruptState,
}

/// The mathematical value of a [`CacheError`].
pub enum CacheErrorView {
    InvalidLink(LinkError),
    DuplicateKey(Seq<char>),
    KeyNotFound(Seq<char>),
    AmbiguousArguments,
    Spawn,
    Signal(u32),
    CorruptState,
}

impl View for CacheError {
    type V = CacheErrorView;

    open spec fn view(&self) -> CacheErrorView {
        match self {
            CacheError::InvalidLink(e) => CacheErrorView::InvalidLink(*e),
            CacheError::DuplicateKey(key) => CacheErrorView::DuplicateKey(key@),
            CacheError::KeyNotFound(key) => CacheErrorView::KeyNotFound(key@),
            CacheError::AmbiguousArguments => CacheErrorView::AmbiguousArguments,
            CacheError::Spawn => CacheErrorView::Spawn,
            CacheError::Signal(pid) => CacheErrorView::Signal(*pid),
            CacheError::CorruptState => CacheErrorView::CorruptState,
        }
    }
}

impl LinkError {
    /// The sentence shown for this error.
    pub open spec fn text(self) -> Seq<char> {
        match self {
            LinkError::Malformed => "Incorrect Jupyter link format: failed to parse the URL."@,
            LinkError::NoPort => "Incorrect Jupyter link format: no port in URL."@,
            LinkError::NoToken =>
                "Incorrect Jupyter link format: cannot determine authentication token."@,
        }
    }

    pub fn message(&self) -> (text: String)
        ensures
            text@ == self.text(),
    {
        match self {
            LinkError::Malformed => "Incorrect Jupyter link format: failed to parse the URL."
                .to_string(),
            LinkError::NoPort => "Incorrect Jupyter link format: no port in URL.".to_string(),
            LinkError::NoToken =>
                "Incorrect Jupyter link format: cannot determine authentication token."
                .to_string(),
        }
    }
}

impl CacheErrorView {
    /// The sentence shown for this error. For a duplicate key it points the
    /// user to reconnecting.
    pub open spec fn text(self) -> Seq<char> {
        match self {
            CacheErrorView::InvalidLink(e) => e.text(),
            CacheErrorView::DuplicateKey(key) => "A remote Jupyter session with key '"@ + key
                + "' is already registered.\nIf you'd like to reconnect, use 'rjy rc'."@,
            CacheErrorView::KeyNotFound(key) =>
                "Could not find a remote Jupyter session with key '"@ + key + "'."@,
            CacheErrorView::AmbiguousArguments => "Specify either a key or --all, not both."@,
            CacheErrorView::Spawn => "Could not start the SSH forwarding process."@,
            CacheErrorView::Signal(pid) => "Could not send the termination signal to process "@
                + decimal(pid as nat) + "."@,
            CacheErrorView::CorruptState => "The stored sessions cannot be read."@,
        }
    }
}

impl CacheError {
    pub fn message(&self) -> (text: String)
        ensures
            text@ == self@.text(),
    {
        match self {
            CacheError::InvalidLink(e) => e.message(),
            CacheError::DuplicateKey(key) => {
                let mut text = "A remote Jupyter session with key '".to_string();
                text.append(key.as_str());
                text.append("' is already registered.\nIf you'd like to reconnect, use 'rjy rc'.");
                text
            },
            CacheError::KeyNotFound(key) => {
                let mut text = "Could not find a remote Jupyter session with key '".to_string();
                text.append(key.as_str());
                text.append("'.");
                text
            },
            CacheError::AmbiguousArguments => "Specify either a key or --all, not both."
                .to_string(),
            CacheError::Spawn => "Could not start the SSH forwarding process.".to_string(),
            CacheError::Signal(pid) => {
                let mut text = "Could not send the termination signal to process ".to_string();
                push_decimal(&mut text, *pid);
                text.append(".");
                text
            },
            CacheError::CorruptState => "The stored sessions cannot be read.".to_string(),
        }
    }
}

} // verus!
