use mqtt_test::session::{event_log, publish_log, subscribe_log};
use mqtt_test::{MqttCmd, MqttLog, MqttManager, NetEvent, QoS, Session, SessionPhase, TransportType};

fn client() -> (rumqttc::Client, rumqttc::Connection) {
    rumqttc::Client::new(rumqttc::MqttOptions::new("session-test", "localhost", 1883), 10)
}

fn line(l: &MqttLog) -> String {
    l.display_line()
}

#[test]
fn start_writes_the_start_notice() {
    let (c, _conn) = client();
    let (s, first) = Session::start(c);
    assert_eq!(line(&first), "[INFO] Connection started, waiting for acknowledgement...");
    assert_eq!(s.phase(), SessionPhase::Open);
}

#[test]
fn publish_with_live_event_loop_is_logged_as_sent() {
    let (c, _conn) = client();
    let (mut s, _) = Session::start(c);
    let l = s.run_command(MqttCmd::Publish {
        topic: "a/b".to_string(),
        qos: QoS::AtLeastOnce,
        payload: "hello".to_string(),
    });
    assert_eq!(line(&l), "[SEND] [a/b] hello");
    assert_eq!(s.phase(), SessionPhase::Open);
}

#[test]
fn publish_to_wildcard_topic_fails() {
    let (c, _conn) = client();
    let (mut s, _) = Session::start(c);
    let l = s.run_command(MqttCmd::Publish {
        topic: "a/+".to_string(),
        qos: QoS::AtMostOnce,
        payload: "x".to_string(),
    });
    assert_eq!(line(&l), "[ERR] Publish failed: Failed to send mqtt requests to eventloop");
}

#[test]
fn requests_fail_once_the_event_loop_is_gone() {
    let (c, conn) = client();
    drop(conn);
    let (mut s, _) = Session::start(c);
    let l = s.run_command(MqttCmd::Subscribe { topic: "t".to_string() });
    assert_eq!(line(&l), "[ERR] Subscribe failed: Failed to send mqtt requests to eventloop");
    let l = s.run_command(MqttCmd::Publish {
        topic: "t".to_string(),
        qos: QoS::AtMostOnce,
        payload: "x".to_string(),
    });
    assert_eq!(line(&l), "[ERR] Publish failed: Failed to send mqtt requests to eventloop");
    let l = s.run_command(MqttCmd::Disconnect);
    assert_eq!(line(&l), "[INFO] Disconnected");
    assert_eq!(s.phase(), SessionPhase::Closed);
}

#[test]
fn subscribe_then_disconnect() {
    let (c, _conn) = client();
    let (mut s, _) = Session::start(c);
    let l = s.run_command(MqttCmd::Subscribe { topic: "sensors/#".to_string() });
    assert_eq!(line(&l), "[INFO] Subscribed: sensors/#");
    let l = s.run_command(MqttCmd::Disconnect);
    assert!(l.is_disconnected_notice());
    assert_eq!(s.phase(), SessionPhase::Closed);
}

#[test]
fn events_are_logged() {
    assert_eq!(line(&event_log(&NetEvent::ConnAck).unwrap()), "[INFO] Connected!");
    let p = NetEvent::Publish { topic: "t".to_string(), payload: b"temp=21".to_vec() };
    assert_eq!(line(&event_log(&p).unwrap()), "[RECV] [t] temp=21");
    let bad = NetEvent::Publish { topic: "t".to_string(), payload: vec![b'a', 0xff, b'b'] };
    assert_eq!(line(&event_log(&bad).unwrap()), "[RECV] [t] a\u{fffd}b");
    let other = NetEvent::Incoming("PingResp".to_string());
    assert_eq!(line(&event_log(&other).unwrap()), "[INFO] PingResp");
    assert!(event_log(&NetEvent::Outgoing).is_none());
    let f = NetEvent::Failure("I/O: refused".to_string());
    assert_eq!(line(&event_log(&f).unwrap()), "[ERR] Connection error: I/O: refused");
}

#[test]
fn failure_breaks_then_finish_closes() {
    let (c, _conn) = client();
    let (mut s, _) = Session::start(c);
    assert!(s.on_event(&NetEvent::Outgoing).is_none());
    assert_eq!(s.phase(), SessionPhase::Open);
    let l = s.on_event(&NetEvent::Failure("refused".to_string())).unwrap();
    assert_eq!(line(&l), "[ERR] Connection error: refused");
    assert_eq!(s.phase(), SessionPhase::Broken);
    let last = s.finish();
    assert!(last.is_disconnected_notice());
    assert_eq!(s.phase(), SessionPhase::Closed);
}

#[test]
fn outcome_logs() {
    assert_eq!(line(&publish_log("t".to_string(), "p".to_string(), Ok(()))), "[SEND] [t] p");
    assert_eq!(
        line(&publish_log("t".to_string(), "p".to_string(), Err("boom".to_string()))),
        "[ERR] Publish failed: boom"
    );
    assert_eq!(line(&subscribe_log("t", Ok(()))), "[INFO] Subscribed: t");
    assert_eq!(line(&subscribe_log("t", Err("boom".to_string()))), "[ERR] Subscribe failed: boom");
}

#[test]
fn a_closed_session_leaves_the_manager_disconnected() {
    let mut m = MqttManager::new();
    m.connect("h", 1883, "", "", "", TransportType::Tcp).unwrap();
    let (c, _conn) = client();
    let (mut s, first) = Session::start(c);
    let mut written = vec![first];
    written.push(s.on_event(&NetEvent::ConnAck).unwrap());
    written.push(s.run_command(MqttCmd::Disconnect));
    m.poll(written);
    assert!(!m.connected());
    assert_eq!(m.logs().len(), 3);
}

fn cmd_publish(topic: &str, payload: &str) -> MqttCmd {
    MqttCmd::Publish { topic: topic.to_string(), qos: QoS::AtMostOnce, payload: payload.to_string() }
}

#[test]
fn round_runs_commands_then_the_event() {
    let (c, _conn) = client();
    let (mut s, _) = Session::start(c);
    let logs = s.run_round(
        vec![cmd_publish("a", "1"), MqttCmd::Subscribe { topic: "b".to_string() }],
        &NetEvent::ConnAck,
    );
    let lines: Vec<String> = logs.iter().map(line).collect();
    assert_eq!(lines, vec!["[SEND] [a] 1", "[INFO] Subscribed: b", "[INFO] Connected!"]);
    assert_eq!(s.phase(), SessionPhase::Open);
}

#[test]
fn round_stops_at_the_first_disconnect() {
    let (c, _conn) = client();
    let (mut s, _) = Session::start(c);
    let logs = s.run_round(
        vec![MqttCmd::Disconnect, cmd_publish("a", "1")],
        &NetEvent::Incoming("PingResp".to_string()),
    );
    let lines: Vec<String> = logs.iter().map(line).collect();
    assert_eq!(lines, vec!["[INFO] Disconnected"]);
    assert_eq!(s.phase(), SessionPhase::Closed);
}

#[test]
fn round_with_failure_breaks_the_stream() {
    let (c, _conn) = client();
    let (mut s, _) = Session::start(c);
    let logs = s.run_round(vec![], &NetEvent::Failure("refused".to_string()));
    assert_eq!(logs.len(), 1);
    assert_eq!(line(&logs[0]), "[ERR] Connection error: refused");
    assert_eq!(s.phase(), SessionPhase::Broken);
    assert!(s.finish().is_disconnected_notice());
}
