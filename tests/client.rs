use edge_ingression::client::{
    Action, Client, ClientEvent, ConnState, MAX_RECONNECT_ATTEMPTS, WILL_MESSAGE,
};
use edge_ingression::model::ErrorKind;

fn connect_to(will_topic: &str) -> Action {
    Action::Connect {
        keep_alive_secs: 20,
        will_topic: will_topic.to_string(),
        will_payload: WILL_MESSAGE.to_string(),
        qos: 1,
    }
}

fn reconnect() -> Action {
    Action::Reconnect { delay_ms: 5000 }
}

fn topics() -> Vec<String> {
    vec!["a".to_string(), "b".to_string(), "c".to_string()]
}

fn connected() -> Client {
    let mut c = Client::new();
    assert_eq!(c.connect("will"), connect_to("will"));
    let (a, r) = c.handle(ClientEvent::ConnectResult(true));
    assert_eq!(a, Action::Nothing);
    assert!(r.is_ok());
    c
}

#[test]
fn second_connect_is_a_no_op() {
    let mut c = Client::new();
    let mut attempts = 0;
    for _ in 0..2 {
        if c.connect("will") == connect_to("will") {
            attempts += 1;
            let (_, r) = c.handle(ClientEvent::ConnectResult(true));
            assert!(r.is_ok());
        }
    }
    assert_eq!(attempts, 1);
    assert!(c.is_connected());
    assert_eq!(c.state(), ConnState::Connected);
}

#[test]
fn failed_connect_reports_transport_error() {
    let mut c = Client::new();
    assert_eq!(c.connect("will"), connect_to("will"));
    let (a, r) = c.handle(ClientEvent::ConnectResult(false));
    assert_eq!(a, Action::Nothing);
    assert_eq!(r.unwrap_err().kind, ErrorKind::Mqtt);
    assert_eq!(c.state(), ConnState::Disconnected);
}

#[test]
fn reconnection_stops_after_the_bound() {
    let mut c = connected();
    let (mut action, _) = c.handle(ClientEvent::ConnectionLost);
    let mut asked = 0;
    let mut errors = 0;
    for _ in 0..20 {
        if action == reconnect() {
            asked += 1;
        }
        let (next, r) = c.handle(ClientEvent::ReconnectResult(false));
        if let Err(e) = r {
            assert_eq!(e.kind, ErrorKind::Mqtt);
            errors += 1;
        }
        action = next;
    }
    assert_eq!(asked, MAX_RECONNECT_ATTEMPTS as usize);
    assert_eq!(asked, 12);
    assert_eq!(errors, 1);
    assert_eq!(c.state(), ConnState::Failed);
    assert_eq!(c.attempts(), 12);
    assert_eq!(action, Action::Nothing);
    assert_eq!(c.handle(ClientEvent::ConnectionLost).0, Action::Nothing);
}

#[test]
fn reconnection_success_resets_attempts() {
    let mut c = connected();
    assert_eq!(c.handle(ClientEvent::ConnectionLost).0, reconnect());
    assert_eq!(c.handle(ClientEvent::ReconnectResult(false)).0, reconnect());
    assert_eq!(c.attempts(), 1);
    let (a, r) = c.handle(ClientEvent::ReconnectResult(true));
    assert_eq!(a, Action::Nothing);
    assert!(r.is_ok());
    assert_eq!(c.state(), ConnState::Connected);
    assert_eq!(c.attempts(), 0);
}

#[test]
fn failed_client_connects_again_only_when_asked() {
    let mut c = connected();
    c.handle(ClientEvent::ConnectionLost);
    for _ in 0..12 {
        c.handle(ClientEvent::ReconnectResult(false));
    }
    assert_eq!(c.state(), ConnState::Failed);
    assert_eq!(c.connect("will"), connect_to("will"));
    assert_eq!(c.state(), ConnState::Connecting);
}

#[test]
fn publish_while_disconnected_fails() {
    let c = Client::new();
    let r = c.send_msg("t", "{}");
    assert_eq!(r.unwrap_err().kind, ErrorKind::Mqtt);
}

#[test]
fn publish_while_connected_asks_to_send() {
    let c = connected();
    let r = c.send_msg("topic/a", "payload");
    assert_eq!(
        r.unwrap(),
        Action::Publish { topic: "topic/a".to_string(), payload: "payload".to_string(), qos: 1 }
    );
}

#[test]
fn subscribe_needs_a_connection() {
    let mut c = Client::new();
    assert_eq!(c.start_subscriber(&topics()).unwrap_err().kind, ErrorKind::Mqtt);
    let mut c = connected();
    assert_eq!(
        c.start_subscriber(&topics()).unwrap(),
        Action::Subscribe { topics: topics(), qos: 1 }
    );
    assert_eq!(c.state(), ConnState::Subscribing);
    assert_eq!(c.start_subscriber(&topics()).unwrap(), Action::Nothing);
    assert!(c.handle(ClientEvent::SubscribeResult(true)).1.is_ok());
    assert_eq!(c.state(), ConnState::Subscribed);
}

#[test]
fn failed_subscribe_disconnects_and_reports() {
    let mut c = connected();
    c.start_subscriber(&topics()).unwrap();
    let (a, r) = c.handle(ClientEvent::SubscribeResult(false));
    assert_eq!(a, Action::Disconnect);
    assert_eq!(r.unwrap_err().kind, ErrorKind::Mqtt);
    assert_eq!(c.state(), ConnState::Disconnected);
}

#[test]
fn disconnect_is_a_no_op_when_disconnected() {
    let mut c = Client::new();
    assert_eq!(c.disconnect(), Action::Nothing);
    let mut c = connected();
    assert_eq!(c.disconnect(), Action::Disconnect);
    assert_eq!(c.state(), ConnState::Disconnected);
    assert!(!c.is_connected());
}

#[test]
fn stale_reports_change_nothing() {
    let mut c = Client::new();
    let (a, r) = c.handle(ClientEvent::ConnectResult(true));
    assert_eq!(a, Action::Nothing);
    assert!(r.is_ok());
    assert_eq!(c.state(), ConnState::Disconnected);
    assert_eq!(c.handle(ClientEvent::ReconnectResult(false)).0, Action::Nothing);
    assert_eq!(c.handle(ClientEvent::ConnectionLost).0, Action::Nothing);
}

#[test]
fn disconnect_without_connection_makes_no_transport_call() {
    let mut c = Client::new();
    c.connect("will");
    assert_eq!(c.disconnect(), Action::Nothing);
    assert_eq!(c.state(), ConnState::Disconnected);
    let mut c = connected();
    c.handle(ClientEvent::ConnectionLost);
    assert_eq!(c.state(), ConnState::Reconnecting);
    assert_eq!(c.disconnect(), Action::Nothing);
    assert_eq!(c.state(), ConnState::Disconnected);
    assert_eq!(c.handle(ClientEvent::ReconnectResult(false)).0, Action::Nothing);
}
