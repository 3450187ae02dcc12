//! The entries of the client's log, the choice of transport and of quality of
//! service, and how a log entry is shown.

use vstd::prelude::*;

verus! {

/// One line of the client's log.
#[derive(Clone, Debug)]
pub enum MqttLog {
    Info(String),
    Recv { topic: String, payload: String },
    Send { topic: String, payload: String },
    Error(String),
}

/// A log entry as text.
pub enum MqttLogView {
    Info(Seq<char>),
    Recv { topic: Seq<char>, payload: Seq<char> },
    Send { topic: Seq<char>, payload: Seq<char> },
    Error(Seq<char>),
}

impl View for MqttLog {
    type V = MqttLogView;

    open spec fn view(&self) -> MqttLogView {
        match self {
            MqttLog::Info(s) => MqttLogView::Info(s@),
            MqttLog::Recv { topic, payload } => MqttLogView::Recv { topic: topic@, payload: payload@ },
            MqttLog::Send { topic, payload } => MqttLogView::Send { topic: topic@, payload: payload@ },
            MqttLog::Error(s) => MqttLogView::Error(s@),
        }
    }
}

/// The log entries of a sequence, as text.
pub open spec fn logs_view(logs: Seq<MqttLog>) -> Seq<MqttLogView> {
    logs.map_values(|l: MqttLog| l@)
}

/// The entry that a connection writes last, when it has ended.
pub open spec fn disconnected_entry() -> MqttLogView {
    MqttLogView::Info("Disconnected"@)
}

/// How the client reaches the broker.
#[derive(Clone, Copy, Debug, PartialEq, Eq, Structural)]
pub enum TransportType {
    Tcp,
    Ws,
}

/// The MQTT quality-of-service levels.
#[derive(Clone, Copy, Debug, PartialEq, Eq, Structural)]
pub enum QoS {
    AtMostOnce,
    AtLeastOnce,
    ExactlyOnce,
}

/// A colour by its red, green and blue components.
#[derive(Clone, Copy, Debug, PartialEq, Eq, Structural)]
pub struct Rgb {
    pub r: u8,
    pub g: u8,
    pub b: u8,
}

/// Green: received messages, the connected state, the connect button.
pub open spec fn green() -> Rgb {
    Rgb { r: 46, g: 204, b: 113 }
}

/// Red: errors, the disconnected state, the disconnect button.
pub open spec fn red() -> Rgb {
    Rgb { r: 231, g: 76, b: 60 }
}

/// Blue: sent messages.
pub open spec fn blue() -> Rgb {
    Rgb { r: 52, g: 152, b: 219 }
}

/// Yellow: information.
pub open spec fn yellow() -> Rgb {
    Rgb { r: 255, g: 255, b: 0 }
}

/// The text of the line that shows a log entry.
pub open spec fn log_line(l: MqttLogView) -> Seq<char> {
    match l {
        MqttLogView::Info(s) => "[INFO] "@ + s,
        MqttLogView::Recv { topic, payload } => "[RECV] ["@ + topic + "] "@ + payload,
        MqttLogView::Send { topic, payload } => "[SEND] ["@ + topic + "] "@ + payload,
        MqttLogView::Error(s) => "[ERR] "@ + s,
    }
}

/// The colour of the line that shows a log entry.
pub open spec fn log_color(l: MqttLogView) -> Rgb {
    match l {
        MqttLogView::Info(_) => yellow(),
        MqttLogView::Recv { .. } => green(),
        MqttLogView::Send { .. } => blue(),
        MqttLogView::Error(_) => red(),
    }
}

impl MqttLog {
    /// The line that shows this entry in the log panel.
    pub fn display_line(&self) -> (line: String)
        ensures
            line@ == log_line(self@),
            self@ matches MqttLogView::Info(t) ==> line@ == "[INFO] "@ + t,
            self@ matches MqttLogView::Recv { topic, payload } ==> line@ == "[RECV] ["@ + topic + "] "@
                + payload,
            self@ matches MqttLogView::Send { topic, payload } ==> line@ == "[SEND] ["@ + topic + "] "@
                + payload,
            self@ matches MqttLogView::Error(t) ==> line@ == "[ERR] "@ + t,
    {
        match self {
            MqttLog::Info(s) => {
                let mut out = String::from_str("[INFO] ");
                out.append(s.as_str());
                out
            },
            MqttLog::Recv { topic, payload } => {
                let mut out = String::from_str("[RECV] [");
                out.append(topic.as_str());
                out.append("] ");
                out.append(payload.as_str());
                out
            },
            MqttLog::Send { topic, payload } => {
                let mut out = String::from_str("[SEND] [");
                out.append(topic.as_str());
                out.append("] ");
                out.append(payload.as_str());
                out
            },
            MqttLog::Error(s) => {
                let mut out = String::from_str("[ERR] ");
                out.append(s.as_str());
                out
            },
        }
    }

    /// The colour of the line that shows this entry.
    pub fn display_color(&self) -> (c: Rgb)
        ensures
            c == log_color(self@),
    {
        match self {
            MqttLog::Info(_) => Rgb { r: 255, g: 255, b: 0 },
            MqttLog::Recv { .. } => Rgb { r: 46, g: 204, b: 113 },
            MqttLog::Send { .. } => Rgb { r: 52, g: 152, b: 219 },
            MqttLog::Error(_) => Rgb { r: 231, g: 76, b: 60 },
        }
    }

    /// Whether this entry is the one a connection writes when it has ended.
    pub fn is_disconnected_notice(&self) -> (b: bool)
        ensures
            b == (self@ == disconnected_entry()),
    {
        match self {
            MqttLog::Info(s) => {
                let expected = String::from_str("Disconnected");
                *s == expected
            },
            _ => false,
        }
    }
}


/// A line shows its entry's text whole: it starts with the entry's tag, a
/// message's line holds its topic in brackets right after the tag, and every
/// line ends with the entry's whole text or payload.
pub proof fn law_log_line_shows_whole_text(l: MqttLogView)
    ensures
        l matches MqttLogView::Info(t) ==> {
            let line = log_line(l);
            &&& line.len() == 7 + t.len()
            &&& line.subrange(0, 7) == "[INFO] "@
            &&& line.subrange(7, line.len() as int) == t
        },
        l matches MqttLogView::Error(t) ==> {
            let line = log_line(l);
            &&& line.len() == 6 + t.len()
            &&& line.subrange(0, 6) == "[ERR] "@
            &&& line.subrange(6, line.len() as int) == t
        },
        l matches MqttLogView::Recv { topic, payload } ==> {
            let line = log_line(l);
            &&& line.len() == 10 + topic.len() + payload.len()
            &&& line.subrange(0, 8) == "[RECV] ["@
            &&& line.subrange(8, 8 + topic.len() as int) == topic
            &&& line.subrange(8 + topic.len() as int, 10 + topic.len() as int) == "] "@
            &&& line.subrange(10 + topic.len() as int, line.len() as int) == payload
        },
        l matches MqttLogView::Send { topic, payload } ==> {
            let line = log_line(l);
            &&& line.len() == 10 + topic.len() + payload.len()
            &&& line.subrange(0, 8) == "[SEND] ["@
            &&& line.subrange(8, 8 + topic.len() as int) == topic
            &&& line.subrange(8 + topic.len() as int, 10 + topic.len() as int) == "] "@
            &&& line.subrange(10 + topic.len() as int, line.len() as int) == payload
        },
{
    reveal_strlit("[INFO] ");
    reveal_strlit("[ERR] ");
    reveal_strlit("[RECV] [");
    reveal_strlit("[SEND] [");
    reveal_strlit("] ");
    match l {
        MqttLogView::Info(t) => {
            let line = log_line(l);
            assert(line.subrange(0, 7) =~= "[INFO] "@);
            assert(line.subrange(7, line.len() as int) =~= t);
        },
        MqttLogView::Error(t) => {
            let line = log_line(l);
            assert(line.subrange(0, 6) =~= "[ERR] "@);
            assert(line.subrange(6, line.len() as int) =~= t);
        },
        MqttLogView::Recv { topic, payload } => {
            let line = log_line(l);
            assert(line.subrange(0, 8) =~= "[RECV] ["@);
            assert(line.subrange(8, 8 + topic.len() as int) =~= topic);
            assert(line.subrange(8 + topic.len() as int, 10 + topic.len() as int) =~= "] "@);
            assert(line.subrange(10 + topic.len() as int, line.len() as int) =~= payload);
        },
        MqttLogView::Send { topic, payload } => {
            let line = log_line(l);
            assert(line.subrange(0, 8) =~= "[SEND] ["@);
            assert(line.subrange(8, 8 + topic.len() as int) =~= topic);
            assert(line.subrange(8 + topic.len() as int, 10 + topic.len() as int) =~= "] "@);
            assert(line.subrange(10 + topic.len() as int, line.len() as int) =~= payload);
        },
    }
}

} // verus!
