//! Event-level tests of the registry and transport state machines: every
//! socket outcome is injected as an event, so each path is exercised
//! without a network.

use packet_forge::client::{TcpClient, TcpClientConfig};
use packet_forge::errors::TransportError;
use packet_forge::events::{ConnectEvent, ProbeEvent, ReceiveEvent, SendEvent};
use packet_forge::manager::ConnectionManager;

fn config(host: &str, port: u16) -> TcpClientConfig {
    TcpClientConfig {
        host: host.to_string(),
        port,
        timeout_secs: 5,
        keep_alive: false,
    }
}

#[test]
fn create_twice_yields_already_exists() {
    let mut mgr = ConnectionManager::new();
    let id = String::from("plc");
    assert!(mgr.create_connection(id.clone(), config("10.0.0.1", 502)).is_ok());
    let second = mgr.create_connection(id.clone(), config("10.0.0.2", 503));
    assert_eq!(second, Err(TransportError::AlreadyExists));
    // the surviving entry is the first one
    let cfg = mgr.prepare_connect(&id).unwrap();
    assert_eq!(cfg.host, "10.0.0.1");
    assert_eq!(cfg.port, 502);
}

#[test]
fn unknown_id_yields_not_found_everywhere() {
    let mut mgr = ConnectionManager::new();
    let id = String::from("ghost");
    assert_eq!(mgr.connect(&id, ConnectEvent::Established), Err(TransportError::NotFound));
    assert_eq!(mgr.prepare_connect(&id).unwrap_err(), TransportError::NotFound);
    assert_eq!(mgr.prepare_transfer(&id), Err(TransportError::NotFound));
    assert_eq!(mgr.send(&id, SendEvent::Sent), Err(TransportError::NotFound));
    assert_eq!(
        mgr.receive(&id, ReceiveEvent::Data(vec![1])).unwrap_err(),
        TransportError::NotFound
    );
    assert_eq!(
        mgr.send_and_receive(&id, SendEvent::Sent, Some(ReceiveEvent::Data(vec![1])))
            .unwrap_err(),
        TransportError::NotFound
    );
    assert_eq!(mgr.disconnect(&id), Err(TransportError::NotFound));
    assert_eq!(mgr.is_connected(&id), Err(TransportError::NotFound));
    assert_eq!(
        mgr.check_connection(&id, Some(ProbeEvent::WouldBlock)),
        Err(TransportError::NotFound)
    );
    // create and list are the exceptions; remove is an idempotent no-op
    assert!(mgr.list_connections().is_empty());
    assert!(mgr.remove_connection(&id).is_ok());
}

#[test]
fn fresh_connection_is_not_connected() {
    let mut mgr = ConnectionManager::new();
    let id = String::from("fresh");
    mgr.create_connection(id.clone(), config("example.net", 7)).unwrap();
    assert_eq!(mgr.is_connected(&id), Ok(false));
    assert_eq!(mgr.prepare_transfer(&id), Err(TransportError::NotConnected));
    assert_eq!(mgr.send(&id, SendEvent::Sent), Err(TransportError::NotConnected));
    assert_eq!(
        mgr.receive(&id, ReceiveEvent::Data(vec![9])).unwrap_err(),
        TransportError::NotConnected
    );
    assert_eq!(
        mgr.send_and_receive(&id, SendEvent::Failed, None).unwrap_err(),
        TransportError::NotConnected
    );
}

#[test]
fn connect_disconnect_lifecycle() {
    let mut mgr = ConnectionManager::new();
    let id = String::from("dev");
    mgr.create_connection(id.clone(), config("localhost", 9000)).unwrap();
    assert_eq!(mgr.connect(&id, ConnectEvent::Established), Ok(()));
    assert_eq!(mgr.is_connected(&id), Ok(true));
    assert_eq!(mgr.disconnect(&id), Ok(()));
    assert_eq!(mgr.is_connected(&id), Ok(false));
    // a second disconnect is a no-op success
    assert_eq!(mgr.disconnect(&id), Ok(()));
    assert_eq!(mgr.is_connected(&id), Ok(false));
}

#[test]
fn failed_connect_leaves_state_alone() {
    let mut mgr = ConnectionManager::new();
    let id = String::from("flaky");
    mgr.create_connection(id.clone(), config("localhost", 9001)).unwrap();
    assert_eq!(mgr.connect(&id, ConnectEvent::TimedOut), Err(TransportError::Timeout));
    assert_eq!(mgr.is_connected(&id), Ok(false));
    assert_eq!(mgr.connect(&id, ConnectEvent::Refused), Err(TransportError::ConnectError));
    assert_eq!(mgr.is_connected(&id), Ok(false));
    // an established connection survives a later failed reconnect attempt
    assert_eq!(mgr.connect(&id, ConnectEvent::Established), Ok(()));
    assert_eq!(mgr.connect(&id, ConnectEvent::TimedOut), Err(TransportError::Timeout));
    assert_eq!(mgr.is_connected(&id), Ok(true));
}

#[test]
fn send_errors_keep_the_connection() {
    let mut mgr = ConnectionManager::new();
    let id = String::from("s");
    mgr.create_connection(id.clone(), config("h", 1)).unwrap();
    mgr.connect(&id, ConnectEvent::Established).unwrap();
    assert_eq!(mgr.send(&id, SendEvent::TimedOut), Err(TransportError::Timeout));
    assert_eq!(mgr.send(&id, SendEvent::Failed), Err(TransportError::IoError));
    assert_eq!(mgr.send(&id, SendEvent::Sent), Ok(()));
    assert_eq!(mgr.is_connected(&id), Ok(true));
}

#[test]
fn receive_returns_exactly_the_arrived_bytes() {
    let mut mgr = ConnectionManager::new();
    let id = String::from("r");
    mgr.create_connection(id.clone(), config("h", 1)).unwrap();
    mgr.connect(&id, ConnectEvent::Established).unwrap();
    let got = mgr.receive(&id, ReceiveEvent::Data(vec![0, 255, 7])).unwrap();
    assert_eq!(got, vec![0, 255, 7]);
    // zero bytes is a valid answer, not an error
    let empty = mgr.receive(&id, ReceiveEvent::Data(Vec::new())).unwrap();
    assert!(empty.is_empty());
    assert_eq!(
        mgr.receive(&id, ReceiveEvent::TimedOut).unwrap_err(),
        TransportError::Timeout
    );
    assert_eq!(
        mgr.receive(&id, ReceiveEvent::Failed).unwrap_err(),
        TransportError::IoError
    );
    assert_eq!(mgr.is_connected(&id), Ok(true));
}

#[test]
fn send_and_receive_round_trip_events() {
    let mut mgr = ConnectionManager::new();
    let id = String::from("echo");
    mgr.create_connection(id.clone(), config("h", 1)).unwrap();
    mgr.connect(&id, ConnectEvent::Established).unwrap();
    let payload = vec![1, 2, 3, 4];
    let got = mgr
        .send_and_receive(&id, SendEvent::Sent, Some(ReceiveEvent::Data(payload.clone())))
        .unwrap();
    assert_eq!(got, payload);
    // a failed send propagates and nothing is read
    assert_eq!(
        mgr.send_and_receive(&id, SendEvent::TimedOut, None).unwrap_err(),
        TransportError::Timeout
    );
}

#[test]
fn remove_hides_the_identifier() {
    let mut mgr = ConnectionManager::new();
    let id = String::from("gone");
    mgr.create_connection(id.clone(), config("h", 1)).unwrap();
    mgr.connect(&id, ConnectEvent::Established).unwrap();
    assert!(mgr.remove_connection(&id).is_ok());
    assert!(!mgr.list_connections().contains(&id));
    assert_eq!(mgr.is_connected(&id), Err(TransportError::NotFound));
    assert_eq!(mgr.send(&id, SendEvent::Sent), Err(TransportError::NotFound));
    // removing again is still a success
    assert!(mgr.remove_connection(&id).is_ok());
}

#[test]
fn list_connections_snapshots_every_identifier() {
    let mut mgr = ConnectionManager::new();
    assert!(mgr.list_connections().is_empty());
    for name in ["a", "b", "c"] {
        mgr.create_connection(name.to_string(), config("h", 1)).unwrap();
    }
    let mut listed = mgr.list_connections();
    listed.sort();
    assert_eq!(listed, vec!["a".to_string(), "b".to_string(), "c".to_string()]);
    mgr.remove_connection(&"b".to_string()).unwrap();
    let mut listed = mgr.list_connections();
    listed.sort();
    assert_eq!(listed, vec!["a".to_string(), "c".to_string()]);
}

#[test]
fn disconnect_all_leaves_entries_unconnected() {
    let mut mgr = ConnectionManager::new();
    for name in ["x", "y"] {
        mgr.create_connection(name.to_string(), config("h", 1)).unwrap();
        mgr.connect(&name.to_string(), ConnectEvent::Established).unwrap();
    }
    mgr.disconnect_all();
    for name in ["x", "y"] {
        assert_eq!(mgr.is_connected(&name.to_string()), Ok(false));
    }
    assert_eq!(mgr.list_connections().len(), 2);
}

#[test]
fn probe_events_drive_liveness() {
    let mut mgr = ConnectionManager::new();
    let id = String::from("live");
    mgr.create_connection(id.clone(), config("h", 1)).unwrap();
    // unconnected: no probe owed, answer is false
    assert_eq!(mgr.check_connection(&id, None), Ok(false));
    mgr.connect(&id, ConnectEvent::Established).unwrap();
    // optimistic outcomes keep the connection
    assert_eq!(mgr.check_connection(&id, Some(ProbeEvent::DataAvailable)), Ok(true));
    assert_eq!(mgr.check_connection(&id, Some(ProbeEvent::WouldBlock)), Ok(true));
    assert_eq!(mgr.check_connection(&id, Some(ProbeEvent::PollTimedOut)), Ok(true));
    assert_eq!(mgr.is_connected(&id), Ok(true));
    // a detected close tears the state down
    assert_eq!(mgr.check_connection(&id, Some(ProbeEvent::PeerClosed)), Ok(false));
    assert_eq!(mgr.is_connected(&id), Ok(false));
    assert_eq!(mgr.send(&id, SendEvent::Sent), Err(TransportError::NotConnected));
}

#[test]
fn probe_failures_tear_down_too() {
    let mut mgr = ConnectionManager::new();
    let id = String::from("live2");
    mgr.create_connection(id.clone(), config("h", 1)).unwrap();
    mgr.connect(&id, ConnectEvent::Established).unwrap();
    assert_eq!(mgr.check_connection(&id, Some(ProbeEvent::ReadFailed)), Ok(false));
    assert_eq!(mgr.is_connected(&id), Ok(false));
    mgr.connect(&id, ConnectEvent::Established).unwrap();
    assert_eq!(mgr.check_connection(&id, Some(ProbeEvent::PollFailed)), Ok(false));
    assert_eq!(mgr.is_connected(&id), Ok(false));
}

#[test]
fn standalone_client_lifecycle() {
    let mut client = TcpClient::new(config("device", 4000));
    assert!(!client.is_connected());
    assert_eq!(client.config().host, "device");
    assert_eq!(client.send(SendEvent::Sent), Err(TransportError::NotConnected));
    assert!(client.connect(ConnectEvent::Established).is_ok());
    assert!(client.is_connected());
    let got = client.receive(ReceiveEvent::Data(vec![42])).unwrap();
    assert_eq!(got, vec![42]);
    assert!(client.disconnect().is_ok());
    assert!(!client.is_connected());
    assert!(!client.check_connection(None));
}
