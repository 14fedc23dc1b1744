use remote_jupyter::error::CacheError;
use remote_jupyter::link::LinkError;
use remote_jupyter::status::ConnectionStatus;
use remote_jupyter::step::{Notice, Row};

#[test]
fn notices_have_their_sentences() {
    assert_eq!(Notice::NoSessions.msg().unwrap(), "No active remote Jupyter sessions.");
    assert_eq!(Notice::AlreadyClosed.msg().unwrap(), "Connection has already closed.");
    assert_eq!(
        Notice::Disconnected { host: "myhost".to_string(), port: 8888, pid: 4242 }.msg().unwrap(),
        "Disconnected session myhost:8888 (Process ID=4242)."
    );
    assert_eq!(
        Notice::Reconnected { key: "myhost:8888".to_string() }.msg().unwrap(),
        "Reconnected session myhost:8888."
    );
    assert_eq!(
        Notice::Created { host: "myhost".to_string(), port: 8888 }.msg().unwrap(),
        "Created new session myhost:8888."
    );
}

#[test]
fn a_row_has_no_sentence() {
    let row = Row {
        key: "a:1".to_string(),
        pid: None,
        status: ConnectionStatus::Disconnected,
        link: "l".to_string(),
    };
    assert_eq!(Notice::Listed(row).msg(), None);
}

#[test]
fn pid_cell_is_number_or_blank() {
    let mut row = Row {
        key: "a:1".to_string(),
        pid: Some(4242),
        status: ConnectionStatus::Connected,
        link: "l".to_string(),
    };
    assert_eq!(row.pid_cell(), "4242");
    row.pid = Some(0);
    assert_eq!(row.pid_cell(), "0");
    row.pid = Some(u32::MAX);
    assert_eq!(row.pid_cell(), "4294967295");
    row.pid = None;
    assert_eq!(row.pid_cell(), " ");
}

#[test]
fn errors_have_their_sentences() {
    assert_eq!(
        CacheError::DuplicateKey("myhost:8888".to_string()).message(),
        "A remote Jupyter session with key 'myhost:8888' is already registered.\nIf you'd like to reconnect, use 'rjy rc'."
    );
    assert_eq!(
        CacheError::KeyNotFound("myhost:8888".to_string()).message(),
        "Could not find a remote Jupyter session with key 'myhost:8888'."
    );
    assert_eq!(
        CacheError::AmbiguousArguments.message(),
        "Specify either a key or --all, not both."
    );
    assert_eq!(
        CacheError::InvalidLink(LinkError::NoPort).message(),
        "Incorrect Jupyter link format: no port in URL."
    );
    assert_eq!(CacheError::Spawn.message(), "Could not start the SSH forwarding process.");
    assert_eq!(
        CacheError::Signal(4242).message(),
        "Could not send the termination signal to process 4242."
    );
    assert_eq!(CacheError::CorruptState.message(), "The stored sessions cannot be read.");
}
