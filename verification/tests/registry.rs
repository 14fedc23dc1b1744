use remote_jupyter::cache::ConnectionCache;
use remote_jupyter::connection::Connection;
use remote_jupyter::error::CacheError;
use remote_jupyter::link::LinkError;
use remote_jupyter::status::ConnectionStatus;
use remote_jupyter::step::{Batch, Kind, Notice, Outcome, Probing, Row, Signalling, Spawning, Step};

const LINK: &str = "https://x.example.com:8888/?token=abc123";

fn tunnel(host: &str, port: u16, pid: Option<u32>) -> Connection {
    Connection {
        host: host.to_string(),
        port,
        link: format!("https://x.example.com:{}/?token=abc123", port),
        pid,
        token: "abc123".to_string(),
    }
}

fn registry(tunnels: Vec<Connection>) -> ConnectionCache {
    let mut cache = ConnectionCache::new();
    for t in tunnels {
        assert_eq!(cache.insert(t), Ok(()));
    }
    cache
}

fn contents(cache: &ConnectionCache) -> Vec<Connection> {
    cache.entries().into_iter().map(|e| e.connection).collect()
}

fn finished(notices: Vec<Notice>, result: Result<(), CacheError>) -> Step {
    Step::Done(Outcome { notices, result })
}

fn batch(kind: Kind, keys: Vec<&str>, notices: Vec<Notice>) -> Batch {
    Batch { kind, keys: keys.into_iter().map(|k| k.to_string()).collect(), notices }
}

fn probing(step: Step) -> Probing {
    match step {
        Step::Probe(p) => p,
        other => panic!("expected a probe, got {:?}", other),
    }
}

fn spawning(step: Step) -> Spawning {
    match step {
        Step::Spawn(s) => s,
        other => panic!("expected a spawn, got {:?}", other),
    }
}

fn signalling(step: Step) -> Signalling {
    match step {
        Step::Signal(s) => s,
        other => panic!("expected a signal, got {:?}", other),
    }
}

fn created_myhost() -> ConnectionCache {
    let mut cache = ConnectionCache::new();
    let wait = spawning(cache.new_connection(LINK, "myhost"));
    let step = cache.after_spawn(wait, Some(4242));
    assert!(matches!(step, Step::Done(Outcome { result: Ok(()), .. })));
    cache
}

#[test]
fn new_registry_is_empty() {
    let cache = ConnectionCache::new();
    assert_eq!(cache.len(), 0);
    assert!(cache.is_empty());
    assert!(cache.keys().is_empty());
    assert!(!cache.contains_key("myhost:8888"));
    assert_eq!(cache.get("myhost:8888"), None);
}

#[test]
fn create_asks_for_a_process_and_registers_the_tunnel() {
    let mut cache = ConnectionCache::new();
    let step = cache.new_connection(LINK, "myhost");
    assert!(cache.is_empty());
    let wait = spawning(step);
    assert_eq!(wait.host, "myhost");
    assert_eq!(wait.port, 8888);
    assert_eq!(wait.link, LINK);
    let step = cache.after_spawn(wait, Some(4242));
    assert_eq!(
        step,
        finished(vec![Notice::Created { host: "myhost".to_string(), port: 8888 }], Ok(()))
    );
    assert_eq!(cache.len(), 1);
    assert!(cache.contains_key("myhost:8888"));
    let entry = cache.get("myhost:8888").unwrap();
    assert_eq!(entry.token, "abc123");
    assert_eq!(entry.port, 8888);
    assert_eq!(entry.host, "myhost");
    assert_eq!(entry.link, LINK);
    assert_eq!(entry.pid, Some(4242));
    assert!(entry.pid.is_some());
    assert_eq!(cache.keys(), vec!["myhost:8888".to_string()]);
}

#[test]
fn create_with_a_bad_link_fails_before_any_request() {
    let mut cache = ConnectionCache::new();
    assert_eq!(
        cache.new_connection("nonsense", "myhost"),
        finished(vec![], Err(CacheError::InvalidLink(LinkError::Malformed)))
    );
    assert_eq!(
        cache.new_connection("https://x.example.com/?token=abc", "myhost"),
        finished(vec![], Err(CacheError::InvalidLink(LinkError::NoPort)))
    );
    assert_eq!(
        cache.new_connection("https://x.example.com:8888/", "myhost"),
        finished(vec![], Err(CacheError::InvalidLink(LinkError::NoToken)))
    );
    assert!(cache.is_empty());
}

#[test]
fn second_create_for_the_same_key_is_a_duplicate() {
    let mut cache = created_myhost();
    let before = contents(&cache);
    let step = cache.new_connection("http://elsewhere.example.org:8888/lab?token=other", "myhost");
    assert_eq!(step, finished(vec![], Err(CacheError::DuplicateKey("myhost:8888".to_string()))));
    assert_eq!(contents(&cache), before);
    assert_eq!(cache.get("myhost:8888").unwrap().token, "abc123");
}

#[test]
fn create_for_another_port_or_host_is_no_duplicate() {
    let mut cache = created_myhost();
    let wait = spawning(cache.new_connection("https://x.example.com:8889/?token=t", "myhost"));
    cache.after_spawn(wait, Some(5));
    let wait = spawning(cache.new_connection(LINK, "otherhost"));
    cache.after_spawn(wait, Some(6));
    assert_eq!(
        cache.keys(),
        vec!["myhost:8888".to_string(), "myhost:8889".to_string(), "otherhost:8888".to_string()]
    );
}

#[test]
fn create_fails_where_no_process_starts() {
    let mut cache = ConnectionCache::new();
    let wait = spawning(cache.new_connection(LINK, "myhost"));
    assert_eq!(cache.after_spawn(wait, None), finished(vec![], Err(CacheError::Spawn)));
    assert!(cache.is_empty());
}

#[test]
fn after_spawn_refuses_a_key_taken_meanwhile() {
    let mut cache = ConnectionCache::new();
    let first = spawning(cache.new_connection(LINK, "myhost"));
    let second = spawning(cache.new_connection(LINK, "myhost"));
    cache.after_spawn(first, Some(1));
    assert_eq!(
        cache.after_spawn(second, Some(2)),
        finished(vec![], Err(CacheError::DuplicateKey("myhost:8888".to_string())))
    );
    assert_eq!(cache.get("myhost:8888").unwrap().pid, Some(1));
}

#[test]
fn disconnect_keeps_the_entry_without_process() {
    let mut cache = created_myhost();
    let wait = probing(cache.disconnect("myhost:8888"));
    assert_eq!(wait.connection.pid, Some(4242));
    assert_eq!(cache.get("myhost:8888").unwrap().pid, Some(4242));
    let wait = signalling(cache.after_probe(wait, true));
    assert_eq!(wait.pid, 4242);
    let step = cache.after_signal(wait, true);
    assert_eq!(
        step,
        finished(
            vec![Notice::Disconnected { host: "myhost".to_string(), port: 8888, pid: 4242 }],
            Ok(())
        )
    );
    assert_eq!(cache.len(), 1);
    let entry = cache.get("myhost:8888").unwrap();
    assert_eq!(entry.pid, None);
    assert_eq!(entry.token, "abc123");
    assert_eq!(entry.status(true), ConnectionStatus::Disconnected);
    assert_eq!(entry.status(false), ConnectionStatus::Disconnected);
}

#[test]
fn disconnect_of_a_dead_process_sends_no_signal() {
    let mut cache = created_myhost();
    let wait = probing(cache.disconnect("myhost:8888"));
    assert_eq!(cache.after_probe(wait, false), finished(vec![Notice::AlreadyClosed], Ok(())));
    assert_eq!(cache.get("myhost:8888").unwrap().pid, None);
}

#[test]
fn disconnect_twice_asks_nothing_the_second_time() {
    let mut cache = created_myhost();
    let wait = probing(cache.disconnect("myhost:8888"));
    let wait = signalling(cache.after_probe(wait, true));
    cache.after_signal(wait, true);
    assert_eq!(cache.disconnect("myhost:8888"), finished(vec![Notice::AlreadyClosed], Ok(())));
    assert_eq!(cache.get("myhost:8888").unwrap().pid, None);
}

#[test]
fn disconnect_clears_the_process_even_where_the_signal_fails() {
    let mut cache = created_myhost();
    let wait = probing(cache.disconnect("myhost:8888"));
    let wait = signalling(cache.after_probe(wait, true));
    assert_eq!(cache.after_signal(wait, false), finished(vec![], Err(CacheError::Signal(4242))));
    assert_eq!(cache.get("myhost:8888").unwrap().pid, None);
}

#[test]
fn disconnect_of_an_unknown_key_fails() {
    let mut cache = created_myhost();
    assert_eq!(
        cache.disconnect("myhost:1"),
        finished(vec![], Err(CacheError::KeyNotFound("myhost:1".to_string())))
    );
    assert_eq!(cache.get("myhost:8888").unwrap().pid, Some(4242));
}

#[test]
fn drop_removes_the_key_and_a_second_drop_fails() {
    let mut cache = created_myhost();
    let wait = probing(cache.drop_connection("myhost:8888"));
    assert!(!cache.contains_key("myhost:8888"));
    let wait = signalling(cache.after_probe(wait, true));
    assert_eq!(wait.pid, 4242);
    assert_eq!(
        cache.after_signal(wait, true),
        finished(
            vec![Notice::Disconnected { host: "myhost".to_string(), port: 8888, pid: 4242 }],
            Ok(())
        )
    );
    assert!(!cache.contains_key("myhost:8888"));
    assert!(cache.is_empty());
    assert_eq!(
        cache.drop_connection("myhost:8888"),
        finished(vec![], Err(CacheError::KeyNotFound("myhost:8888".to_string())))
    );
}

#[test]
fn drop_of_a_tunnel_without_process_is_done_at_once() {
    let mut cache = registry(vec![tunnel("a", 1, None), tunnel("b", 2, Some(20))]);
    assert_eq!(cache.drop_connection("a:1"), finished(vec![Notice::AlreadyClosed], Ok(())));
    assert_eq!(contents(&cache), vec![tunnel("b", 2, Some(20))]);
}

#[test]
fn drop_all_stops_at_the_first_failed_signal() {
    let mut cache = registry(vec![tunnel("a", 1, Some(10)), tunnel("b", 2, Some(20))]);
    let wait = probing(cache.drop_all_connections());
    assert_eq!(wait.connection, tunnel("a", 1, Some(10)));
    assert_eq!(wait.batch.keys, vec!["b:2".to_string()]);
    let wait = signalling(cache.after_probe(wait, true));
    assert_eq!(wait.pid, 10);
    let step = cache.after_signal(wait, false);
    assert_eq!(step, finished(vec![], Err(CacheError::Signal(10))));
    assert_eq!(contents(&cache), vec![tunnel("b", 2, Some(20))]);
}

#[test]
fn drop_all_empties_the_registry() {
    let mut cache =
        registry(vec![tunnel("a", 1, Some(10)), tunnel("b", 2, None), tunnel("c", 3, Some(30))]);
    let wait = probing(cache.drop_all_connections());
    let wait = signalling(cache.after_probe(wait, true));
    let wait = probing(cache.after_signal(wait, true));
    assert_eq!(wait.connection, tunnel("c", 3, Some(30)));
    let step = cache.after_probe(wait, false);
    assert_eq!(
        step,
        finished(
            vec![
                Notice::Disconnected { host: "a".to_string(), port: 1, pid: 10 },
                Notice::AlreadyClosed,
                Notice::AlreadyClosed,
            ],
            Ok(())
        )
    );
    assert!(cache.is_empty());
}

#[test]
fn drop_all_on_an_empty_registry_does_nothing() {
    let mut cache = ConnectionCache::new();
    assert_eq!(cache.drop_all_connections(), finished(vec![], Ok(())));
    assert_eq!(cache.disconnect_all(), finished(vec![], Ok(())));
    assert_eq!(cache.reconnect_all(), finished(vec![], Ok(())));
}

#[test]
fn disconnect_all_stops_at_the_first_failed_signal() {
    let mut cache = registry(vec![tunnel("a", 1, Some(10)), tunnel("b", 2, Some(20))]);
    let wait = probing(cache.disconnect_all());
    let wait = signalling(cache.after_probe(wait, true));
    assert_eq!(cache.after_signal(wait, false), finished(vec![], Err(CacheError::Signal(10))));
    assert_eq!(contents(&cache), vec![tunnel("a", 1, None), tunnel("b", 2, Some(20))]);
}

#[test]
fn disconnect_all_clears_every_process() {
    let mut cache = registry(vec![tunnel("a", 1, Some(10)), tunnel("b", 2, Some(20))]);
    let wait = probing(cache.disconnect_all());
    let wait = probing(cache.after_probe(wait, false));
    assert_eq!(wait.connection, tunnel("b", 2, Some(20)));
    let wait = signalling(cache.after_probe(wait, true));
    assert_eq!((wait.pid, wait.host.as_str(), wait.port), (20, "b", 2));
    let step = cache.after_signal(wait, true);
    assert_eq!(
        step,
        finished(
            vec![
                Notice::AlreadyClosed,
                Notice::Disconnected { host: "b".to_string(), port: 2, pid: 20 },
            ],
            Ok(())
        )
    );
    assert_eq!(contents(&cache), vec![tunnel("a", 1, None), tunnel("b", 2, None)]);
}

#[test]
fn reconnect_leaves_a_live_tunnel_alone() {
    let mut cache = created_myhost();
    let wait = probing(cache.reconnect("myhost:8888"));
    assert_eq!(cache.after_probe(wait, true), finished(vec![], Ok(())));
    assert_eq!(contents(&cache), vec![tunnel("myhost", 8888, Some(4242))]);
}

#[test]
fn reconnect_gives_a_dead_tunnel_a_new_process() {
    let mut cache = created_myhost();
    let wait = probing(cache.reconnect("myhost:8888"));
    let wait = spawning(cache.after_probe(wait, false));
    assert_eq!((wait.host.as_str(), wait.port, wait.link.as_str()), ("myhost", 8888, LINK));
    let step = cache.after_spawn(wait, Some(5000));
    assert_eq!(step, finished(vec![Notice::Reconnected { key: "myhost:8888".to_string() }], Ok(())));
    assert_eq!(contents(&cache), vec![tunnel("myhost", 8888, Some(5000))]);
}

#[test]
fn reconnect_of_a_tunnel_without_process_spawns_at_once() {
    let mut cache = registry(vec![tunnel("myhost", 8888, None)]);
    let wait = spawning(cache.reconnect("myhost:8888"));
    cache.after_spawn(wait, Some(77));
    assert_eq!(cache.get("myhost:8888").unwrap().pid, Some(77));
}

#[test]
fn reconnect_of_an_unknown_key_fails() {
    let mut cache = created_myhost();
    assert_eq!(
        cache.reconnect("nowhere:1"),
        finished(vec![], Err(CacheError::KeyNotFound("nowhere:1".to_string())))
    );
    assert_eq!(cache.len(), 1);
}

#[test]
fn reconnect_with_an_unreadable_stored_link_fails() {
    let mut broken = tunnel("a", 1, None);
    broken.link = "gone".to_string();
    let mut cache = registry(vec![broken]);
    assert_eq!(
        cache.reconnect("a:1"),
        finished(vec![], Err(CacheError::InvalidLink(LinkError::Malformed)))
    );
}

#[test]
fn reconnect_all_stops_at_the_first_failed_spawn() {
    let mut cache = registry(vec![tunnel("a", 1, None), tunnel("b", 2, None)]);
    let wait = spawning(cache.reconnect_all());
    assert_eq!(wait.host, "a");
    assert_eq!(cache.after_spawn(wait, None), finished(vec![], Err(CacheError::Spawn)));
    assert_eq!(contents(&cache), vec![tunnel("b", 2, None)]);
}

#[test]
fn reconnect_all_handles_every_tunnel() {
    let mut cache =
        registry(vec![tunnel("a", 1, Some(10)), tunnel("b", 2, None), tunnel("c", 3, Some(30))]);
    let wait = probing(cache.reconnect_all());
    let wait = spawning(cache.after_probe(wait, true));
    assert_eq!((wait.host.as_str(), wait.port), ("b", 2));
    let wait = probing(cache.after_spawn(wait, Some(21)));
    let wait = spawning(cache.after_probe(wait, false));
    let step = cache.after_spawn(wait, Some(31));
    assert_eq!(
        step,
        finished(
            vec![
                Notice::Reconnected { key: "b:2".to_string() },
                Notice::Reconnected { key: "c:3".to_string() },
            ],
            Ok(())
        )
    );
    assert_eq!(
        contents(&cache),
        vec![tunnel("a", 1, Some(10)), tunnel("b", 2, Some(21)), tunnel("c", 3, Some(31))]
    );
}

#[test]
fn list_of_an_empty_registry_says_so() {
    let mut cache = ConnectionCache::new();
    assert_eq!(cache.list(), finished(vec![Notice::NoSessions], Ok(())));
}

#[test]
fn list_shows_each_tunnel_and_changes_nothing() {
    let tunnels = vec![tunnel("a", 1, Some(10)), tunnel("b", 2, None), tunnel("c", 3, Some(30))];
    let mut cache = registry(tunnels.clone());
    let wait = probing(cache.list());
    assert_eq!(wait.connection.pid, Some(10));
    let wait = probing(cache.after_probe(wait, true));
    assert_eq!(wait.connection.pid, Some(30));
    let step = cache.after_probe(wait, false);
    let row = |key: &str, pid: Option<u32>, status: ConnectionStatus, port: u16| {
        Notice::Listed(Row {
            key: key.to_string(),
            pid,
            status,
            link: format!("https://x.example.com:{}/?token=abc123", port),
        })
    };
    assert_eq!(
        step,
        finished(
            vec![
                row("a:1", Some(10), ConnectionStatus::Connected, 1),
                row("b:2", None, ConnectionStatus::Disconnected, 2),
                row("c:3", None, ConnectionStatus::Disconnected, 3),
            ],
            Ok(())
        )
    );
    assert_eq!(contents(&cache), tunnels);
}

#[test]
fn remove_connection_hands_the_tunnel_over() {
    let mut cache = registry(vec![tunnel("a", 1, Some(10)), tunnel("b", 2, None)]);
    assert_eq!(cache.remove_connection("a:1"), Ok(tunnel("a", 1, Some(10))));
    assert_eq!(contents(&cache), vec![tunnel("b", 2, None)]);
    assert_eq!(cache.remove_connection("a:1"), Err(CacheError::KeyNotFound("a:1".to_string())));
    assert_eq!(contents(&cache), vec![tunnel("b", 2, None)]);
}

#[test]
fn insert_refuses_a_taken_key() {
    let mut cache = registry(vec![tunnel("a", 1, Some(10))]);
    assert_eq!(
        cache.insert(tunnel("a", 1, None)),
        Err(CacheError::DuplicateKey("a:1".to_string()))
    );
    assert_eq!(contents(&cache), vec![tunnel("a", 1, Some(10))]);
    assert_eq!(cache.find("a:1"), Some(0));
    assert_eq!(cache.find("a:2"), None);
}

#[test]
fn advance_with_nothing_left_is_done() {
    let mut cache = registry(vec![tunnel("a", 1, Some(10))]);
    let step = cache.advance(batch(Kind::Drop, vec![], vec![Notice::AlreadyClosed]));
    assert_eq!(step, finished(vec![Notice::AlreadyClosed], Ok(())));
    assert_eq!(cache.len(), 1);
}

#[test]
fn advance_keeps_the_notices_when_a_key_is_missing() {
    let mut cache = registry(vec![tunnel("a", 1, None)]);
    let step = cache.advance(batch(Kind::Disconnect, vec!["a:1", "x:9", "a:1"], vec![]));
    assert_eq!(
        step,
        finished(vec![Notice::AlreadyClosed], Err(CacheError::KeyNotFound("x:9".to_string())))
    );
}

#[test]
fn advance_ignores_keys_given_to_a_creation() {
    let mut cache = registry(vec![tunnel("a", 1, Some(10))]);
    let step = cache.advance(batch(Kind::Create, vec!["a:1"], vec![]));
    assert_eq!(step, finished(vec![], Ok(())));
    assert_eq!(contents(&cache), vec![tunnel("a", 1, Some(10))]);
}
