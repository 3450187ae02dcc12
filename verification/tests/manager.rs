use mqtt_test::{MqttCmd, MqttLog, MqttManager, QoS, TransportType};

fn info(s: &str) -> MqttLog {
    MqttLog::Info(s.to_string())
}

fn lines(m: &MqttManager) -> Vec<String> {
    m.logs().iter().map(|l| l.display_line()).collect()
}

#[test]
fn new_manager_is_idle() {
    let m = MqttManager::new();
    assert!(!m.connected());
    assert!(m.logs().is_empty());
    assert!(m.publish("t", QoS::AtMostOnce, "x").is_none());
    assert!(m.subscribe("t").is_none());
}

#[test]
fn poll_appends_in_order() {
    let mut m = MqttManager::new();
    m.poll(vec![info("a"), MqttLog::Error("b".to_string())]);
    m.poll(vec![]);
    m.poll(vec![info("c")]);
    assert_eq!(lines(&m), vec!["[INFO] a", "[ERR] b", "[INFO] c"]);
}

#[test]
fn connect_then_refuses_a_second_connect() {
    let mut m = MqttManager::new();
    let plan = m.connect("broker", 1883, "/mqtt", "user", "pw", TransportType::Tcp).unwrap();
    assert!(m.connected());
    assert!(plan.client_id.starts_with("rust_test_"));
    assert!(plan.client_id.len() >= 26);
    assert_eq!(plan.host, "broker");
    assert_eq!(plan.port, 1883);
    assert_eq!(plan.username, "user");
    assert_eq!(plan.password, "pw");
    assert_eq!(plan.keep_alive_secs, 30);
    assert_eq!(plan.request_capacity, 10);
    assert_eq!(plan.greeting.display_line(), "[INFO] Connecting to broker:1883//mqtt ...");
    assert!(m.connect("other", 1, "", "", "", TransportType::Ws).is_none());
    assert!(m.logs().is_empty());
}

#[test]
fn commands_go_out_only_while_a_connection_is_held() {
    let mut m = MqttManager::new();
    m.connect("h", 9001, "p", "", "", TransportType::Ws).unwrap();
    match m.publish("t/1", QoS::ExactlyOnce, "payload") {
        Some(MqttCmd::Publish { topic, qos, payload }) => {
            assert_eq!(topic, "t/1");
            assert_eq!(qos, QoS::ExactlyOnce);
            assert_eq!(payload, "payload");
        },
        _ => panic!("expected a publish command"),
    }
    match m.subscribe("s") {
        Some(MqttCmd::Subscribe { topic }) => assert_eq!(topic, "s"),
        _ => panic!("expected a subscribe command"),
    }
    assert!(matches!(m.disconnect(), Some(MqttCmd::Disconnect)));
    assert!(!m.connected());
    assert!(m.publish("t", QoS::AtMostOnce, "x").is_none());
}

#[test]
fn disconnect_twice_is_disconnect_once() {
    let mut m = MqttManager::new();
    m.connect("h", 1883, "", "", "", TransportType::Tcp).unwrap();
    assert!(m.disconnect().is_some());
    assert!(m.disconnect().is_none());
    assert!(!m.connected());
}

#[test]
fn end_of_connection_notice_clears_connected() {
    let mut m = MqttManager::new();
    m.connect("h", 1883, "", "", "", TransportType::Tcp).unwrap();
    m.poll(vec![info("Connected!")]);
    assert!(m.connected());
    m.poll(vec![info("Disconnect"), MqttLog::Error("Disconnected".to_string())]);
    assert!(m.connected());
    m.poll(vec![MqttLog::Error("Connection error: x".to_string()), info("Disconnected")]);
    assert!(!m.connected());
    // The connection's command queue is still held: a publish is still handed out.
    assert!(m.publish("t", QoS::AtMostOnce, "x").is_some());
    // A new connection may be opened once the old one has ended.
    assert!(m.connect("h", 1883, "", "", "", TransportType::Tcp).is_some());
}

#[test]
fn polling_in_batches_equals_polling_at_once() {
    let batch = || vec![info("x"), info("Disconnected"), info("y")];
    let mut a = MqttManager::new();
    a.connect("h", 1, "", "", "", TransportType::Tcp).unwrap();
    let mut b = MqttManager::new();
    b.connect("h", 1, "", "", "", TransportType::Tcp).unwrap();
    let mut all = batch();
    let tail = all.split_off(2);
    a.poll(all);
    a.poll(tail);
    b.poll(batch());
    assert_eq!(lines(&a), lines(&b));
    assert_eq!(a.connected(), b.connected());
}

#[test]
fn plan_builds_matching_options() {
    let mut m = MqttManager::new();
    let plan = m.connect("example.org", 1884, "/", "u", "p", TransportType::Ws).unwrap();
    let o = plan.to_options();
    assert_eq!(o.client_id(), plan.client_id);
    assert_eq!(o.broker_address(), ("example.org".to_string(), 1884));
    assert_eq!(o.keep_alive(), std::time::Duration::from_secs(30));
    assert!(o.clean_session());
    assert_eq!(o.credentials(), Some(("u".to_string(), "p".to_string())));
    assert!(matches!(o.transport(), rumqttc::Transport::Ws));
    let tcp = m.disconnect();
    assert!(tcp.is_some());
    let plan = m.connect("example.org", 1883, "/", "u", "p", TransportType::Tcp).unwrap();
    assert!(matches!(plan.to_options().transport(), rumqttc::Transport::Tcp));
}

#[test]
fn connect_with_hex_names_the_client() {
    let mut m = MqttManager::new();
    let plan = m
        .connect_with_hex("00000000000000ff".to_string(), "h", 80, "ws", "", "", TransportType::Ws)
        .unwrap();
    assert_eq!(plan.client_id, "rust_test_00000000000000ff");
    assert_eq!(plan.transport, TransportType::Ws);
    assert_eq!(plan.greeting.display_line(), "[INFO] Connecting to h:80/ws ...");
    assert!(m.connected());
    assert!(m.has_session());
    assert!(m
        .connect_with_hex("01".to_string(), "h", 80, "ws", "", "", TransportType::Ws)
        .is_none());
}
