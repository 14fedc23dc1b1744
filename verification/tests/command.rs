use remote_jupyter::cache::ConnectionCache;
use remote_jupyter::command::{run, Command};
use remote_jupyter::connection::Connection;
use remote_jupyter::error::CacheError;
use remote_jupyter::link::LinkError;
use remote_jupyter::step::{Notice, Outcome, Row, Step};

fn tunnel(host: &str, port: u16, pid: Option<u32>) -> Connection {
    Connection {
        host: host.to_string(),
        port,
        link: format!("https://x.example.com:{}/?token=abc123", port),
        pid,
        token: "abc123".to_string(),
    }
}

fn two() -> ConnectionCache {
    let mut cache = ConnectionCache::new();
    cache.insert(tunnel("a", 1, Some(10))).unwrap();
    cache.insert(tunnel("b", 2, None)).unwrap();
    cache
}

fn failed(error: CacheError) -> Step {
    Step::Done(Outcome { notices: vec![], result: Err(error) })
}

fn key(k: &str) -> Option<String> {
    Some(k.to_string())
}

#[test]
fn drop_with_key_and_all_is_ambiguous() {
    let mut cache = two();
    let step = run(&mut cache, &Command::Drop { key: key("a:1"), all: true });
    assert_eq!(step, failed(CacheError::AmbiguousArguments));
    assert_eq!(cache.len(), 2);
    assert_eq!(cache.get("a:1").unwrap().pid, Some(10));
}

#[test]
fn drop_with_neither_key_nor_all_is_ambiguous() {
    let mut cache = two();
    let step = run(&mut cache, &Command::Drop { key: None, all: false });
    assert_eq!(step, failed(CacheError::AmbiguousArguments));
    assert_eq!(cache.len(), 2);
}

#[test]
fn drop_with_key_drops_that_tunnel() {
    let mut cache = two();
    let step = run(&mut cache, &Command::Drop { key: key("b:2"), all: false });
    assert_eq!(step, Step::Done(Outcome { notices: vec![Notice::AlreadyClosed], result: Ok(()) }));
    assert_eq!(cache.keys(), vec!["a:1".to_string()]);
}

#[test]
fn drop_all_begins_with_the_first_tunnel() {
    let mut cache = two();
    match run(&mut cache, &Command::Drop { key: None, all: true }) {
        Step::Probe(p) => {
            assert_eq!(p.connection, tunnel("a", 1, Some(10)));
            assert_eq!(p.batch.keys, vec!["b:2".to_string()]);
        }
        other => panic!("unexpected {:?}", other),
    }
    assert_eq!(cache.keys(), vec!["b:2".to_string()]);
}

#[test]
fn new_begins_a_creation() {
    let mut cache = two();
    let command = Command::New {
        link: "https://x.example.com:8888/?token=abc123".to_string(),
        host: "myhost".to_string(),
    };
    match run(&mut cache, &command) {
        Step::Spawn(s) => assert_eq!((s.host.as_str(), s.port), ("myhost", 8888)),
        other => panic!("unexpected {:?}", other),
    }
    let bad = Command::New { link: "x".to_string(), host: "myhost".to_string() };
    assert_eq!(run(&mut cache, &bad), failed(CacheError::InvalidLink(LinkError::Malformed)));
}

#[test]
fn rc_and_dc_take_one_key_or_all() {
    let mut cache = two();
    assert!(matches!(run(&mut cache, &Command::Rc { key: key("b:2") }), Step::Spawn(_)));
    let mut cache = two();
    assert!(matches!(run(&mut cache, &Command::Rc { key: None }), Step::Probe(_)));
    let mut cache = two();
    assert_eq!(
        run(&mut cache, &Command::Dc { key: key("b:2") }),
        Step::Done(Outcome { notices: vec![Notice::AlreadyClosed], result: Ok(()) })
    );
    assert!(matches!(run(&mut cache, &Command::Dc { key: None }), Step::Probe(_)));
    assert_eq!(
        run(&mut cache, &Command::Dc { key: key("zz:1") }),
        failed(CacheError::KeyNotFound("zz:1".to_string()))
    );
}

#[test]
fn list_command_lists() {
    let mut cache = ConnectionCache::new();
    assert_eq!(
        run(&mut cache, &Command::List),
        Step::Done(Outcome { notices: vec![Notice::NoSessions], result: Ok(()) })
    );
    cache.insert(tunnel("b", 2, None)).unwrap();
    let row = Row {
        key: "b:2".to_string(),
        pid: None,
        status: remote_jupyter::status::ConnectionStatus::Disconnected,
        link: "https://x.example.com:2/?token=abc123".to_string(),
    };
    assert_eq!(
        run(&mut cache, &Command::List),
        Step::Done(Outcome { notices: vec![Notice::Listed(row)], result: Ok(()) })
    );
}

#[test]
fn which_commands_save() {
    assert!(Command::New { link: String::new(), host: String::new() }.saves());
    assert!(Command::Drop { key: None, all: true }.saves());
    assert!(Command::Rc { key: None }.saves());
    assert!(!Command::Dc { key: None }.saves());
    assert!(!Command::List.saves());
}
