use mqtt_test::form::{qos_from_index, subscription_line};
use mqtt_test::{MqttApp, MqttCmd, QoS, Rgb, TransportType, UiAction};

#[test]
fn default_form() {
    let app = MqttApp::default();
    assert_eq!(app.host, "47.109.52.219");
    assert_eq!(app.port, "1883");
    assert_eq!(app.path, "/mqtt");
    assert_eq!(app.username, "longzheng0315");
    assert_eq!(app.password, "");
    assert_eq!(app.transport, TransportType::Tcp);
    assert_eq!(app.pub_qos, 0);
    assert!(app.subscriptions.topics().is_empty());
    assert!(!app.manager.connected());
    assert_eq!(app.connect_button_text(), "Connect");
    assert_eq!(app.connect_button_color(), Rgb { r: 46, g: 204, b: 113 });
    let (c, t) = app.status();
    assert_eq!(c, Rgb { r: 231, g: 76, b: 60 });
    assert_eq!(t, "Disconnected");
}

#[test]
fn port_follows_transport() {
    let mut app = MqttApp::default();
    app.transport = TransportType::Ws;
    app.normalize_port();
    assert_eq!(app.port, "9001");
    app.normalize_port();
    assert_eq!(app.port, "9001");
    app.transport = TransportType::Tcp;
    app.normalize_port();
    assert_eq!(app.port, "1883");
    app.port = String::new();
    app.normalize_port();
    assert_eq!(app.port, "1883");
    app.port = "8883".to_string();
    app.normalize_port();
    assert_eq!(app.port, "8883");
    app.transport = TransportType::Ws;
    app.normalize_port();
    assert_eq!(app.port, "8883");
}

#[test]
fn qos_index_mapping() {
    assert_eq!(qos_from_index(0), QoS::AtMostOnce);
    assert_eq!(qos_from_index(1), QoS::AtLeastOnce);
    assert_eq!(qos_from_index(2), QoS::ExactlyOnce);
    assert_eq!(qos_from_index(7), QoS::AtMostOnce);
}

#[test]
fn subscribe_lists_each_topic_once() {
    let mut app = MqttApp::default();
    assert!(matches!(app.on_subscribe_clicked(), UiAction::Nothing));
    app.sub_topic = "a".to_string();
    assert!(matches!(app.on_subscribe_clicked(), UiAction::Nothing));
    app.sub_topic = "b".to_string();
    app.on_subscribe_clicked();
    app.sub_topic = "a".to_string();
    app.on_subscribe_clicked();
    let topics: Vec<&str> = app.subscriptions.topics().iter().map(|s| s.as_str()).collect();
    assert_eq!(topics, vec!["a", "b"]);
    assert!(app.subscriptions.contains("b"));
    assert!(!app.subscriptions.contains("c"));
    assert_eq!(subscription_line(&"a".to_string()), "  - a");
}

#[test]
fn connect_click_parses_port_or_falls_back() {
    let mut app = MqttApp::default();
    app.port = "not a port".to_string();
    match app.on_connect_clicked() {
        UiAction::Open(plan) => {
            assert_eq!(plan.port, 1883);
            assert_eq!(plan.host, "47.109.52.219");
            assert_eq!(plan.username, "longzheng0315");
            assert_eq!(plan.greeting.display_line(), "[INFO] Connecting to 47.109.52.219:1883//mqtt ...");
        },
        _ => panic!("expected a connection to be opened"),
    }
    assert!(app.manager.connected());
    assert_eq!(app.connect_button_text(), "Disconnect");
    assert_eq!(app.connect_button_color(), Rgb { r: 231, g: 76, b: 60 });
    assert_eq!(app.status().1, "Connected");
    assert!(matches!(app.on_connect_clicked(), UiAction::Send(MqttCmd::Disconnect)));
    assert!(!app.manager.connected());
}

#[test]
fn connect_click_uses_the_port_field() {
    let mut app = MqttApp::default();
    app.port = "+8883".to_string();
    match app.on_connect_clicked() {
        UiAction::Open(plan) => assert_eq!(plan.port, 8883),
        _ => panic!("expected a connection to be opened"),
    }
}

#[test]
fn publish_click_needs_topic_and_connection() {
    let mut app = MqttApp::default();
    app.pub_topic = "t".to_string();
    app.pub_msg = "m".to_string();
    app.pub_qos = 2;
    assert!(matches!(app.on_publish_clicked(), UiAction::Nothing));
    app.on_connect_clicked();
    match app.on_publish_clicked() {
        UiAction::Send(MqttCmd::Publish { topic, qos, payload }) => {
            assert_eq!(topic, "t");
            assert_eq!(qos, QoS::ExactlyOnce);
            assert_eq!(payload, "m");
        },
        _ => panic!("expected a publish command"),
    }
    app.pub_topic = String::new();
    assert!(matches!(app.on_publish_clicked(), UiAction::Nothing));
    assert_eq!(app.qos_choice_text(), "2");
}

#[test]
fn subscribe_click_while_connected_sends_command() {
    let mut app = MqttApp::default();
    app.on_connect_clicked();
    app.sub_topic = "x/y".to_string();
    match app.on_subscribe_clicked() {
        UiAction::Send(MqttCmd::Subscribe { topic }) => assert_eq!(topic, "x/y"),
        _ => panic!("expected a subscribe command"),
    }
}
