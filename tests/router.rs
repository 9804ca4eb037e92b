use edge_ingression::client::{Action, ClientEvent, ConnState, WILL_MESSAGE};
use edge_ingression::envelope::{Envelope, Payload};
use edge_ingression::model::{
    DeserializerType, ErrorKind, Event, Protocol, ServiceInfo, StoreType, StreamInfo,
};
use edge_ingression::router::Router;
use edge_ingression::service::Service;

fn protocol(pub_topic: &str) -> Protocol {
    Protocol {
        name: String::from("mqtt"),
        port: 1883,
        pub_topic: String::from(pub_topic),
        sub_topics: vec![String::from("test"), String::from("test_response")],
    }
}

fn info(name: &str) -> ServiceInfo {
    ServiceInfo {
        name: String::from(name),
        debug: true,
        host: String::from("localhost"),
        protocol: protocol("test"),
        deserializer: DeserializerType::Json,
    }
}

fn connect_to(will_topic: &str) -> Action {
    Action::Connect {
        keep_alive_secs: 20,
        will_topic: will_topic.to_string(),
        will_payload: WILL_MESSAGE.to_string(),
        qos: 1,
    }
}

fn subscribe() -> Action {
    Action::Subscribe { topics: vec![String::from("test"), String::from("test_response")], qos: 1 }
}

fn stream(name: &str, sensor_id: &str) -> StreamInfo {
    StreamInfo {
        name: String::from(name),
        sensor_id: String::from(sensor_id),
        store_type: StoreType::InProcessMemory,
    }
}

#[test]
fn test_new() {
    let service_info = ServiceInfo {
        name: String::from("Edge Ingestion"),
        debug: true,
        host: String::from("localhost"),
        protocol: protocol("test"),
        deserializer: DeserializerType::Json,
    };
    let service = Service::new(String::from("test_service"), service_info);
    assert_eq!(service.get_name(), &String::from("test_service"));
}

#[test]
fn route_added_and_removed() {
    let mut router = Router::new();
    router.add_service(info("svc1"));
    let route = router.add_route("svc1", stream("Temp sensor", "s1")).unwrap();
    assert_eq!(route.service_name, "svc1");
    assert_eq!(route.stream_name, "Temp sensor");
    assert_eq!(router.num_routes(), 1);
    let removed = router.remove_route("svc1", "s1").unwrap();
    assert_eq!(removed.service_name, "svc1");
    assert_eq!(removed.stream_name, "s1");
    assert_eq!(router.num_routes(), 0);
}

#[test]
fn service_added_twice_is_registered_once() {
    let mut router = Router::new();
    router.add_service(info("A"));
    router.add_service(info("A"));
    assert_eq!(router.num_services(), 1);
    router.add_route("A", stream("S", "s"));
    assert_eq!(router.num_routes(), 1);
    router.add_service(info("A"));
    assert_eq!(router.num_routes(), 1);
}

#[test]
fn unknown_service_gives_no_route() {
    let mut router = Router::new();
    assert!(router.add_route("missing", stream("S", "s")).is_none());
    assert!(router.remove_route("missing", "s").is_none());
    assert_eq!(router.num_routes(), 0);
}

#[test]
fn names_follow_insertion_order() {
    let mut router = Router::new();
    router.add_service(info("b"));
    router.add_service(info("a"));
    router.add_route("b", stream("one", "s1"));
    router.add_route("a", stream("two", "s2"));
    router.add_route("b", stream("three", "s3"));
    assert_eq!(router.get_service_names(), vec!["b".to_string(), "a".to_string()]);
    assert_eq!(
        router.get_route_names(),
        vec!["b_s1".to_string(), "b_s3".to_string(), "a_s2".to_string()]
    );
    assert_eq!(router.num_routes(), 3);
}

#[test]
fn remove_service_drops_its_routes() {
    let mut router = Router::new();
    router.add_service(info("a"));
    router.add_service(info("b"));
    router.add_route("a", stream("x", "s1"));
    router.remove_service("a");
    router.remove_service("missing");
    assert_eq!(router.get_service_names(), vec!["b".to_string()]);
    assert_eq!(router.num_routes(), 0);
}

#[test]
fn streams_are_keyed_by_sensor_id() {
    let mut service = Service::new(String::from("svc"), info("svc"));
    service.add_stream(stream("first", "s1")).unwrap();
    service.add_stream(stream("second", "s1")).unwrap();
    service.add_stream(stream("third", "s2")).unwrap();
    assert_eq!(service.num_streams().unwrap(), 2);
    assert_eq!(service.get_stream_names().unwrap(), vec!["s1".to_string(), "s2".to_string()]);
    service.remove_stream("absent").unwrap();
    assert_eq!(service.num_streams().unwrap(), 2);
    service.remove_stream("s1").unwrap();
    assert_eq!(service.get_stream_names().unwrap(), vec!["s2".to_string()]);
}

#[test]
fn remove_all_streams_clears_every_entry() {
    let mut service = Service::new(String::from("svc"), info("svc"));
    for id in ["a", "b", "c", "d"] {
        service.add_stream(stream(id, id)).unwrap();
    }
    service.remove_all_stream().unwrap();
    assert_eq!(service.num_streams().unwrap(), 0);
    assert!(service.get_stream_names().unwrap().is_empty());
}

#[test]
fn dispatch_reaches_only_the_matching_stream() {
    let mut router = Router::new();
    router.add_service(info("svc"));
    router.add_route("svc", stream("temp", "t1"));
    assert!(router.dispatch("svc", "t1", vec![Event { timestamp: 5 }]));
    assert!(!router.dispatch("svc", "other", vec![Event { timestamp: 5 }]));
    assert!(!router.dispatch("missing", "t1", vec![Event { timestamp: 5 }]));
}

#[test]
fn start_connects_then_subscribes() {
    let mut router = Router::new();
    router.add_service(info("a"));
    router.add_service(info("b"));
    assert_eq!(router.start(), vec![connect_to("test"), connect_to("test")]);
    assert_eq!(router.start(), vec![Action::Nothing, Action::Nothing]);
    let (action, result) = router.handle("a", ClientEvent::ConnectResult(true)).unwrap();
    assert_eq!(action, subscribe());
    assert!(result.is_ok());
    let (action, result) = router.handle("b", ClientEvent::ConnectResult(false)).unwrap();
    assert_eq!(action, Action::Nothing);
    assert_eq!(result.unwrap_err().kind, ErrorKind::Mqtt);
    assert!(router.handle("missing", ClientEvent::ConnectionLost).is_none());
}

#[test]
fn send_uses_override_or_configured_topic() {
    let mut service = Service::new(String::from("svc"), ServiceInfo { protocol: protocol("out"), ..info("svc") });
    assert_eq!(service.send_msg(None, "{}").unwrap_err().kind, ErrorKind::Mqtt);
    assert_eq!(service.start(), connect_to("out"));
    service.handle(ClientEvent::ConnectResult(true));
    assert!(service.is_connected());
    assert_eq!(
        service.send_msg(None, "{}").unwrap(),
        Action::Publish { topic: "out".to_string(), payload: "{}".to_string(), qos: 1 }
    );
    assert_eq!(
        service.send_msg(Some("other"), "{}").unwrap(),
        Action::Publish { topic: "other".to_string(), payload: "{}".to_string(), qos: 1 }
    );
}

#[test]
fn router_send_to_unknown_service_does_nothing() {
    let mut router = Router::new();
    router.add_service(info("svc"));
    assert_eq!(router.send_msg("missing", "t", "{}").unwrap(), Action::Nothing);
    assert_eq!(router.send_msg("svc", "t", "{}").unwrap_err().kind, ErrorKind::Mqtt);
}

#[test]
fn restart_disconnects_then_connects() {
    let mut service = Service::new(String::from("svc"), info("svc"));
    assert_eq!(service.restart(), (Action::Nothing, connect_to("test")));
    service.handle(ClientEvent::ConnectResult(true));
    assert_eq!(service.client().state(), ConnState::Subscribing);
    assert_eq!(service.restart(), (Action::Disconnect, connect_to("test")));
    assert_eq!(service.client().state(), ConnState::Connecting);
    assert_eq!(service.stop(), Action::Nothing);
    assert_eq!(service.start(), connect_to("test"));
    service.handle(ClientEvent::ConnectResult(true));
    assert_eq!(service.stop(), Action::Disconnect);
    assert_eq!(service.stop(), Action::Nothing);
}

#[test]
fn router_restart_and_stop_by_name() {
    let mut router = Router::new();
    router.add_service(info("svc"));
    assert!(router.restart_service("missing").is_none());
    assert!(router.stop_service("missing").is_none());
    assert_eq!(router.restart_service("svc"), Some((Action::Nothing, connect_to("test"))));
    assert_eq!(router.stop_service("svc"), Some(Action::Nothing));
    router.start();
    router.handle("svc", ClientEvent::ConnectResult(true));
    assert_eq!(router.stop_service("svc"), Some(Action::Disconnect));
}

#[test]
fn descriptive_envelope_feeds_each_named_sensor() {
    let env = Envelope {
        timestamp: 42,
        version: String::from("0.1.0"),
        data: Payload::DescriptiveData { ids: vec![String::from("a"), String::from("b")] },
    };
    let routed = env.sensor_events();
    assert_eq!(routed.len(), 2);
    assert_eq!(routed[0].0, "a");
    assert_eq!(routed[1].0, "b");
    assert_eq!(routed[0].1, vec![Event { timestamp: 42 }]);
    assert_eq!(routed[1].1, vec![Event { timestamp: 42 }]);
}

#[test]
fn envelopes_without_sensor_ids_feed_nothing() {
    for data in [
        Payload::SimpleData,
        Payload::WindowData { timestamps: vec![1, 2] },
        Payload::Other { value: String::from("x") },
    ] {
        let env = Envelope { timestamp: 1, version: String::from("0.1.0"), data };
        assert!(env.sensor_events().is_empty());
    }
}
