//! Decision core of a small desktop MQTT test client: the form state, the
//! connection manager, the per-connection session and the text they show.

pub mod clock;
pub mod form;
pub mod log;
pub mod manager;
pub mod broker;
pub mod session;
pub mod text;

pub use clock::rand_hex;
pub use form::{MqttApp, Subscriptions, UiAction};
pub use log::{MqttLog, QoS, Rgb, TransportType};
pub use manager::{ConnectPlan, MqttCmd, MqttManager};
pub use session::{NetEvent, Session, SessionPhase};
