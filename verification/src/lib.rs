//! Bookkeeping for SSH port forwards that expose remote Jupyter servers.
//!
//! The crate keeps a registry of tunnels, decides what has to be asked of
//! the operating system to create, reconnect, disconnect or drop them, and
//! says how the registry looks afterwards. It never touches a process or a
//! file itself: the caller performs each request and reports the answer.
//!
//! - [`link`] reads the port and token out of a notebook link;
//! - [`authority`] tells from the text of a link whether it writes a port;
//! - [`key`] derives the key of a tunnel from its host and port;
//! - [`connection`] and [`status`] describe one tunnel;
//! - [`cache`] is the registry, in which no two tunnels share a key;
//! - [`step`] and [`machine`] carry the operations out, step by step;
//! - [`command`] maps the requests of a user onto the operations;
//! - [`store`] decides how a registry is loaded and what is written;
//! - [`error`] names the failures;
//! - [`laws`] states what holds of all this on every input.

pub mod authority;
pub mod cache;
pub mod command;
pub mod connection;
pub mod error;
pub mod key;
pub mod laws;
pub mod link;
pub mod machine;
pub mod status;
pub mod step;
pub mod store;
