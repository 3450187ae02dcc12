use mqtt_test::{MqttLog, Rgb};

fn rgb(r: u8, g: u8, b: u8) -> Rgb {
    Rgb { r, g, b }
}

#[test]
fn info_line_is_yellow() {
    let l = MqttLog::Info("Connected!".to_string());
    assert_eq!(l.display_line(), "[INFO] Connected!");
    assert_eq!(l.display_color(), rgb(255, 255, 0));
}

#[test]
fn received_line_is_green() {
    let l = MqttLog::Recv { topic: "a/b".to_string(), payload: "hi".to_string() };
    assert_eq!(l.display_line(), "[RECV] [a/b] hi");
    assert_eq!(l.display_color(), rgb(46, 204, 113));
}

#[test]
fn sent_line_is_blue() {
    let l = MqttLog::Send { topic: "t".to_string(), payload: "".to_string() };
    assert_eq!(l.display_line(), "[SEND] [t] ");
    assert_eq!(l.display_color(), rgb(52, 152, 219));
}

#[test]
fn error_line_is_red() {
    let l = MqttLog::Error("Connection error: refused".to_string());
    assert_eq!(l.display_line(), "[ERR] Connection error: refused");
    assert_eq!(l.display_color(), rgb(231, 76, 60));
}

#[test]
fn only_the_exact_notice_ends_a_connection() {
    assert!(MqttLog::Info("Disconnected".to_string()).is_disconnected_notice());
    assert!(!MqttLog::Info("Disconnected ".to_string()).is_disconnected_notice());
    assert!(!MqttLog::Info("Disconnect".to_string()).is_disconnected_notice());
    assert!(!MqttLog::Error("Disconnected".to_string()).is_disconnected_notice());
}
