use remote_jupyter::connection::Connection;
use remote_jupyter::link::LinkError;
use remote_jupyter::status::ConnectionStatus;

fn tunnel(pid: Option<u32>) -> Connection {
    Connection {
        host: "myhost".to_string(),
        port: 8888,
        link: "https://x.example.com:8888/?token=abc123".to_string(),
        pid,
        token: "abc123".to_string(),
    }
}

#[test]
fn status_words() {
    assert_eq!(ConnectionStatus::Connected.msg(), "connected");
    assert_eq!(ConnectionStatus::Disconnected.msg(), "disconnected");
}

#[test]
fn new_describes_the_started_tunnel() {
    let made = Connection::new("https://x.example.com:8888/?token=abc123", "myhost", 4242);
    assert_eq!(made, Ok(tunnel(Some(4242))));
}

#[test]
fn new_fails_as_the_link_does() {
    assert_eq!(Connection::new("nonsense", "myhost", 1), Err(LinkError::Malformed));
    assert_eq!(Connection::new("http://h/?token=a", "myhost", 1), Err(LinkError::NoPort));
    assert_eq!(Connection::new("http://h:99/", "myhost", 1), Err(LinkError::NoToken));
}

#[test]
fn status_follows_process_and_liveness() {
    assert_eq!(tunnel(Some(7)).status(true), ConnectionStatus::Connected);
    assert_eq!(tunnel(Some(7)).status(false), ConnectionStatus::Disconnected);
    assert_eq!(tunnel(None).status(true), ConnectionStatus::Disconnected);
    assert_eq!(tunnel(None).status(false), ConnectionStatus::Disconnected);
}

#[test]
fn status_leaves_a_stale_process_on_record() {
    let stale = tunnel(Some(7));
    assert_eq!(stale.status(false), ConnectionStatus::Disconnected);
    assert_eq!(stale.pid, Some(7));
}

#[test]
fn get_pid_hides_a_dead_process() {
    assert_eq!(tunnel(Some(7)).get_pid(true), Some(7));
    assert_eq!(tunnel(Some(7)).get_pid(false), None);
    assert_eq!(tunnel(None).get_pid(true), None);
    assert_eq!(tunnel(None).get_pid(false), None);
}

#[test]
fn is_alive_needs_a_process() {
    assert!(tunnel(Some(7)).is_alive(true));
    assert!(!tunnel(Some(7)).is_alive(false));
    assert!(!tunnel(None).is_alive(true));
    assert!(!tunnel(None).is_alive(false));
}

#[test]
fn key_of_a_tunnel() {
    assert_eq!(tunnel(None).key(), "myhost:8888");
}

#[test]
fn kill_connection_signals_a_live_process_and_clears_it() {
    let mut live = tunnel(Some(7));
    assert_eq!(live.kill_connection(true), Some(7));
    assert_eq!(live, tunnel(None));
}

#[test]
fn kill_connection_clears_a_stale_process_without_signal() {
    let mut stale = tunnel(Some(7));
    assert_eq!(stale.kill_connection(false), None);
    assert_eq!(stale.pid, None);
}

#[test]
fn kill_connection_twice_signals_once() {
    let mut live = tunnel(Some(7));
    assert_eq!(live.kill_connection(true), Some(7));
    assert_eq!(live.pid, None);
    assert_eq!(live.kill_connection(true), None);
    assert_eq!(live.pid, None);
    assert_eq!(live.status(true), ConnectionStatus::Disconnected);
}

#[test]
fn forward_command_text() {
    assert_eq!(
        Connection::forward_command("myhost", 8888),
        "ssh -Y -N -L localhost:8888:localhost:8888 myhost"
    );
    assert_eq!(
        Connection::forward_command("user@box", 80),
        "ssh -Y -N -L localhost:80:localhost:80 user@box"
    );
}

#[test]
fn duplicate_is_equal() {
    let original = tunnel(Some(9));
    assert_eq!(original.duplicate(), original);
}
