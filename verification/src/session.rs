//! One connection to a broker, as its event loop sees it: the commands it
//! carries out on the `rumqttc` client, the events it reports, and the log
//! entries it writes from its start to its end.

use vstd::prelude::*;
use vstd::utf8::{decode_utf8, valid_utf8};
use crate::broker::{ClientRequestView, client_disconnect, client_error_text, client_publish,
    client_requests, client_subscribe, topic_is_valid};
use crate::log::{MqttLog, MqttLogView, QoS, disconnected_entry, logs_view};
use crate::manager::{ManagerView, MqttCmd, MqttCmdView, poll_spec};

verus! {

/// The text that `String::from_utf8_lossy` makes of some bytes.
pub uninterp spec fn utf8_lossy_text(bytes: Seq<u8>) -> Seq<char>;

/// `String::from_utf8_lossy`: the bytes read as UTF-8, with each invalid
/// sequence replaced by U+FFFD; valid UTF-8 is read as it is.
#[verifier::external_body]
fn utf8_lossy(bytes: &[u8]) -> (s: String)
    ensures
        s@ == utf8_lossy_text(bytes@),
        valid_utf8(bytes@) ==> s@ == decode_utf8(bytes@),
{
    String::from_utf8_lossy(bytes).into_owned()
}

/// What the connection to the broker reports.
pub enum NetEvent {
    /// The broker acknowledged the connection.
    ConnAck,
    /// A message arrived on a subscribed topic.
    Publish { topic: String, payload: Vec<u8> },
    /// Another packet arrived, by its description.
    Incoming(String),
    /// A packet was sent.
    Outgoing,
    /// The connection failed, with the error's text.
    Failure(String),
}

/// An event as plain values.
pub enum NetEventView {
    ConnAck,
    Publish { topic: Seq<char>, payload: Seq<u8> },
    Incoming(Seq<char>),
    Outgoing,
    Failure(Seq<char>),
}

impl View for NetEvent {
    type V = NetEventView;

    open spec fn view(&self) -> NetEventView {
        match self {
            NetEvent::ConnAck => NetEventView::ConnAck,
            NetEvent::Publish { topic, payload } => NetEventView::Publish {
                topic: topic@,
                payload: payload@,
            },
            NetEvent::Incoming(s) => NetEventView::Incoming(s@),
            NetEvent::Outgoing => NetEventView::Outgoing,
            NetEvent::Failure(e) => NetEventView::Failure(e@),
        }
    }
}

/// The entry a connection writes when it starts.
pub open spec fn started_entry() -> MqttLogView {
    MqttLogView::Info("Connection started, waiting for acknowledgement..."@)
}

/// The entry written for an event, if any.
pub open spec fn event_entry(ev: NetEventView) -> Option<MqttLogView> {
    match ev {
        NetEventView::ConnAck => Some(MqttLogView::Info("Connected!"@)),
        NetEventView::Publish { topic, payload } => Some(
            MqttLogView::Recv { topic, payload: utf8_lossy_text(payload) },
        ),
        NetEventView::Incoming(s) => Some(MqttLogView::Info(s)),
        NetEventView::Outgoing => None,
        NetEventView::Failure(e) => Some(MqttLogView::Error("Connection error: "@ + e)),
    }
}

/// Whether an event ends the stream of events.
pub open spec fn event_breaks(ev: NetEventView) -> bool {
    ev is Failure
}

/// The entry written after a publish request: what was sent, or why not.
pub open spec fn publish_entry(topic: Seq<char>, payload: Seq<char>, failure: Option<Seq<char>>)
    -> MqttLogView {
    match failure {
        None => MqttLogView::Send { topic, payload },
        Some(e) => MqttLogView::Error("Publish failed: "@ + e),
    }
}

/// The entry written after a subscribe request.
pub open spec fn subscribe_entry(topic: Seq<char>, failure: Option<Seq<char>>) -> MqttLogView {
    match failure {
        None => MqttLogView::Info("Subscribed: "@ + topic),
        Some(e) => MqttLogView::Error("Subscribe failed: "@ + e),
    }
}

/// The error text of a request's outcome, if it failed.
pub open spec fn failure_of(outcome: Result<(), String>) -> Option<Seq<char>> {
    match outcome {
        Ok(()) => None,
        Err(e) => Some(e@),
    }
}

/// The entry for the outcome of a publish request.
pub fn publish_log(topic: String, payload: String, outcome: Result<(), String>) -> (l: MqttLog)
    ensures
        l@ == publish_entry(topic@, payload@, failure_of(outcome)),
{
    match outcome {
        Ok(()) => MqttLog::Send { topic, payload },
        Err(e) => {
            let mut text = String::from_str("Publish failed: ");
            text.append(e.as_str());
            MqttLog::Error(text)
        },
    }
}

/// The entry for the outcome of a subscribe request.
pub fn subscribe_log(topic: &str, outcome: Result<(), String>) -> (l: MqttLog)
    ensures
        l@ == subscribe_entry(topic@, failure_of(outcome)),
{
    match outcome {
        Ok(()) => {
            let mut text = String::from_str("Subscribed: ");
            text.append(topic);
            MqttLog::Info(text)
        },
        Err(e) => {
            let mut text = String::from_str("Subscribe failed: ");
            text.append(e.as_str());
            MqttLog::Error(text)
        },
    }
}

/// The entry for an event, if any.
pub fn event_log(ev: &NetEvent) -> (l: Option<MqttLog>)
    ensures
        match l {
            Some(x) => event_entry(ev@) == Some(x@),
            None => event_entry(ev@) is None,
        },
{
    match ev {
        NetEvent::ConnAck => Some(MqttLog::Info(String::from_str("Connected!"))),
        NetEvent::Publish { topic, payload } => {
            let text = utf8_lossy(payload.as_slice());
            Some(MqttLog::Recv { topic: topic.clone(), payload: text })
        },
        NetEvent::Incoming(s) => Some(MqttLog::Info(s.clone())),
        NetEvent::Outgoing => None,
        NetEvent::Failure(e) => {
            let mut text = String::from_str("Connection error: ");
            text.append(e.as_str());
            Some(MqttLog::Error(text))
        },
    }
}

/// Where a connection stands.
/// Where a connection stands.
#[derive(Clone, Copy, Debug, PartialEq, Eq, Structural)]
pub enum SessionPhase {
    /// Events and commands are taken.
    Open,
    /// The stream of events has failed; only the final entry is left to write.
    Broken,
    /// The final entry has been written.
    Closed,
}

/// A connection as plain values: where it stands, every entry it wrote, and
/// every request made of its client.
pub struct SessionView {
    pub phase: SessionPhase,
    pub trace: Seq<MqttLogView>,
    pub requests: Seq<(ClientRequestView, bool)>,
}

/// A connection's entries begin with its start notice, and once it is closed
/// they end with the notice that it has ended.
pub open spec fn trace_wf(phase: SessionPhase, trace: Seq<MqttLogView>) -> bool {
    &&& trace.len() >= 1
    &&& trace[0] == started_entry()
    &&& phase == SessionPhase::Closed ==> trace.last() == disconnected_entry()
}

impl SessionView {
    /// See [`trace_wf`].
    pub open spec fn wf(self) -> bool {
        trace_wf(self.phase, self.trace)
    }
}

/// The request that a command makes of the client: a publish keeps its topic,
/// level and payload and is never retained; a subscribe asks for the lowest
/// level.
pub open spec fn request_for(cmd: MqttCmdView) -> ClientRequestView {
    match cmd {
        MqttCmdView::Publish { topic, qos, payload } => ClientRequestView::Publish {
            topic,
            qos,
            retain: false,
            payload,
        },
        MqttCmdView::Subscribe { topic } => ClientRequestView::Subscribe {
            topic,
            qos: QoS::AtMostOnce,
        },
        MqttCmdView::Disconnect => ClientRequestView::Disconnect,
    }
}

/// The entry written for a command, given whether the client queued its
/// request.
pub open spec fn command_entry(cmd: MqttCmdView, queued: bool) -> MqttLogView {
    let failure = if queued { None } else { Some(client_error_text()) };
    match cmd {
        MqttCmdView::Publish { topic, payload, .. } => publish_entry(topic, payload, failure),
        MqttCmdView::Subscribe { topic } => subscribe_entry(topic, failure),
        MqttCmdView::Disconnect => disconnected_entry(),
    }
}

/// Whether the command at `k` is the first disconnect among `cmds`.
pub open spec fn first_disconnect_at(cmds: Seq<MqttCmd>, k: int) -> bool {
    &&& 0 <= k < cmds.len()
    &&& cmds[k]@ is Disconnect
    &&& forall|j: int| 0 <= j < k ==> !(#[trigger] cmds[j]@ is Disconnect)
}

/// How many of the pending commands a round carries out: all of them, or
/// those up to and including the first disconnect.
pub open spec fn carried(cmds: Seq<MqttCmd>) -> int {
    if exists|k: int| #[trigger] first_disconnect_at(cmds, k) {
        (choose|k: int| #[trigger] first_disconnect_at(cmds, k)) + 1
    } else {
        cmds.len() as int
    }
}

proof fn lemma_first_disconnect_unique(cmds: Seq<MqttCmd>, k: int)
    requires
        first_disconnect_at(cmds, k),
    ensures
        carried(cmds) == k + 1,
{
    let c = choose|c: int| #[trigger] first_disconnect_at(cmds, c);
    if c < k {
        assert(!(cmds[c]@ is Disconnect));
    } else if k < c {
        assert(!(cmds[k]@ is Disconnect));
    }
}

/// Where a connection stands and what it wrote.
struct Progress {
    phase: SessionPhase,
    trace: Ghost<Seq<MqttLogView>>,
}

impl Progress {
    #[verifier::type_invariant]
    spec fn inv(self) -> bool {
        trace_wf(self.phase, self.trace@)
    }

    spec fn phase_of(&self) -> SessionPhase {
        self.phase
    }

    spec fn trace_of(&self) -> Seq<MqttLogView> {
        self.trace@
    }

    fn new(first: &MqttLog) -> (p: Progress)
        requires
            first@ == started_entry(),
        ensures
            p.phase_of() == SessionPhase::Open,
            p.trace_of() == seq![first@],
    {
        let ghost t = seq![first@];
        Progress { phase: SessionPhase::Open, trace: Ghost(t) }
    }

    fn phase(&self) -> (ph: SessionPhase)
        ensures
            ph == self.phase_of(),
            trace_wf(self.phase_of(), self.trace_of()),
    {
        proof { use_type_invariant(self); }
        self.phase
    }

    fn write(&mut self, l: &MqttLog)
        requires
            old(self).phase_of() != SessionPhase::Closed,
        ensures
            final(self).phase_of() == old(self).phase_of(),
            final(self).trace_of() == old(self).trace_of().push(l@),
            trace_wf(final(self).phase_of(), final(self).trace_of()),
    {
        proof { use_type_invariant(&*self); }
        let ghost t = self.trace@.push(l@);
        assert(t[0] == self.trace@[0]);
        self.trace = Ghost(t);
        proof { use_type_invariant(&*self); }
    }

    fn close_with(&mut self, l: &MqttLog)
        requires
            old(self).phase_of() != SessionPhase::Closed,
            l@ == disconnected_entry(),
        ensures
            final(self).phase_of() == SessionPhase::Closed,
            final(self).trace_of() == old(self).trace_of().push(l@),
            trace_wf(final(self).phase_of(), final(self).trace_of()),
    {
        proof { use_type_invariant(&*self); }
        let ghost t = self.trace@.push(l@);
        assert(t[0] == self.trace@[0]);
        self.trace = Ghost(t);
        self.phase = SessionPhase::Closed;
        proof { use_type_invariant(&*self); }
    }

    fn break_stream(&mut self)
        requires
            old(self).phase_of() == SessionPhase::Open,
        ensures
            final(self).phase_of() == SessionPhase::Broken,
            final(self).trace_of() == old(self).trace_of(),
            trace_wf(final(self).phase_of(), final(self).trace_of()),
    {
        proof { use_type_invariant(&*self); }
        self.phase = SessionPhase::Broken;
        proof { use_type_invariant(&*self); }
    }
}

/// One connection's event loop state, around its `rumqttc` client.
pub struct Session {
    client: rumqttc::Client,
    progress: Progress,
}

impl View for Session {
    type V = SessionView;

    closed spec fn view(&self) -> SessionView {
        SessionView {
            phase: self.progress.phase_of(),
            trace: self.progress.trace_of(),
            requests: client_requests(self.client),
        }
    }
}

impl Session {
    /// Starts the loop of a connection; the entry it writes first is returned.
    pub fn start(client: rumqttc::Client) -> (r: (Session, MqttLog))
        ensures
            r.0@.phase == SessionPhase::Open,
            r.0@.trace == seq![r.1@],
            r.0@.requests == client_requests(client),
            r.1@ == started_entry(),
            r.0@.wf(),
    {
        let first = MqttLog::Info(String::from_str("Connection started, waiting for acknowledgement..."));
        let progress = Progress::new(&first);
        (Session { client, progress }, first)
    }

    /// Where the connection stands.
    pub fn phase(&self) -> (p: SessionPhase)
        ensures
            p == self@.phase,
            self@.wf(),
    {
        self.progress.phase()
    }

    /// Carries out a command: its request is made of the client, and the
    /// entry written says whether the client queued it. A disconnect closes
    /// the connection either way.
    pub fn run_command(&mut self, cmd: MqttCmd) -> (l: MqttLog)
        requires
            old(self)@.phase == SessionPhase::Open,
        ensures
            final(self)@.requests.len() == old(self)@.requests.len() + 1,
            final(self)@.requests.drop_last() == old(self)@.requests,
            final(self)@.requests.last().0 == request_for(cmd@),
            cmd@ matches MqttCmdView::Publish { topic, qos, payload } ==> final(self)@.requests.last().0
                == (ClientRequestView::Publish { topic, qos, retain: false, payload }),
            cmd@ matches MqttCmdView::Subscribe { topic } ==> final(self)@.requests.last().0
                == (ClientRequestView::Subscribe { topic, qos: QoS::AtMostOnce }),
            cmd@ is Disconnect ==> final(self)@.requests.last().0 == ClientRequestView::Disconnect,
            l@ == command_entry(cmd@, final(self)@.requests.last().1),
            final(self)@.trace == old(self)@.trace.push(l@),
            final(self)@.phase == (if cmd@ is Disconnect {
                SessionPhase::Closed
            } else {
                SessionPhase::Open
            }),
            (cmd@ matches MqttCmdView::Publish { topic, .. } && !topic_is_valid(topic))
                ==> !final(self)@.requests.last().1,
            final(self)@.wf(),
    {
        let ghost before = client_requests(self.client);
        let l = match cmd {
            MqttCmd::Publish { topic, qos, payload } => {
                let outcome = client_publish(&mut self.client, topic.as_str(), qos, false,
                    payload.as_str());
                let l = publish_log(topic, payload, outcome);
                self.progress.write(&l);
                l
            },
            MqttCmd::Subscribe { topic } => {
                let outcome = client_subscribe(&mut self.client, topic.as_str(), QoS::AtMostOnce);
                let l = subscribe_log(topic.as_str(), outcome);
                self.progress.write(&l);
                l
            },
            MqttCmd::Disconnect => {
                let _ = client_disconnect(&mut self.client);
                let l = MqttLog::Info(String::from_str("Disconnected"));
                self.progress.close_with(&l);
                l
            },
        };
        assert(client_requests(self.client).drop_last() =~= before);
        l
    }

    /// Takes in an event from the broker and returns the entry it writes, if
    /// any. A failure breaks the stream of events.
    pub fn on_event(&mut self, ev: &NetEvent) -> (l: Option<MqttLog>)
        requires
            old(self)@.phase == SessionPhase::Open,
        ensures
            match l {
                Some(x) => event_entry(ev@) == Some(x@) && final(self)@.trace == old(self)@.trace.push(x@),
                None => event_entry(ev@) is None && final(self)@.trace == old(self)@.trace,
            },
            final(self)@.phase == (if event_breaks(ev@) {
                SessionPhase::Broken
            } else {
                SessionPhase::Open
            }),
            final(self)@.phase == (if ev@ is Failure {
                SessionPhase::Broken
            } else {
                SessionPhase::Open
            }),
            final(self)@.requests == old(self)@.requests,
            final(self)@.wf(),
    {
        let l = event_log(ev);
        match &l {
            Some(x) => self.progress.write(x),
            None => {},
        }
        if let NetEvent::Failure(_) = ev {
            self.progress.break_stream();
        }
        proof { use_type_invariant(&self.progress); }
        l
    }

    /// One round of the event loop: the commands pending when an event comes
    /// are carried out in order, up to and including the first disconnect,
    /// which closes the connection and leaves the event untouched; without a
    /// disconnect the event is then taken in. The entries written are
    /// returned in order.
    pub fn run_round(&mut self, cmds: Vec<MqttCmd>, ev: &NetEvent) -> (logs: Vec<MqttLog>)
        requires
            old(self)@.phase == SessionPhase::Open,
        ensures
            ({
                let base = old(self)@.requests.len();
                let k = carried(cmds@);
                &&& final(self)@.requests.len() == base + k
                &&& final(self)@.requests.take(base as int) == old(self)@.requests
                &&& forall|j: int| 0 <= j < k ==> {
                    &&& (#[trigger] final(self)@.requests[base + j]).0 == request_for(cmds@[j]@)
                    &&& logs@[j]@ == command_entry(cmds@[j]@, final(self)@.requests[base + j].1)
                }
                &&& if k < cmds@.len() || (k > 0 && cmds@[k - 1]@ is Disconnect) {
                    &&& logs@.len() == k
                    &&& final(self)@.phase == SessionPhase::Closed
                } else {
                    &&& logs@.len() == k + (if event_entry(ev@) is Some { 1int } else { 0 })
                    &&& event_entry(ev@) matches Some(x) ==> logs@[k]@ == x
                    &&& final(self)@.phase == (if event_breaks(ev@) {
                        SessionPhase::Broken
                    } else {
                        SessionPhase::Open
                    })
                    &&& final(self)@.phase == (if ev@ is Failure {
                        SessionPhase::Broken
                    } else {
                        SessionPhase::Open
                    })
                }
            }),
            final(self)@.trace == old(self)@.trace + logs_view(logs@),
            final(self)@.wf(),
    {
        proof { use_type_invariant(&self.progress); }
        let n: usize = cmds.len();
        let ghost all = cmds@;
        let ghost r0 = self@.requests;
        let ghost t0 = self@.trace;
        let mut rest = cmds;
        let mut logs: Vec<MqttLog> = Vec::new();
        let mut i: usize = 0;
        assert(rest@ =~= all.skip(0));
        assert(t0 + logs_view(logs@) =~= t0);
        while rest.len() > 0
            invariant
                rest@ == all.skip(i as int),
                i + rest.len() == all.len(),
                all.len() == n,
                t0 == old(self)@.trace,
                all == cmds@,
                r0 == old(self)@.requests,
                forall|j: int| 0 <= j < i ==> !(#[trigger] all[j]@ is Disconnect),
                self@.phase == SessionPhase::Open,
                self@.wf(),
                self@.requests.len() == r0.len() + i,
                self@.requests.take(r0.len() as int) == r0,
                logs@.len() == i,
                forall|j: int| 0 <= j < i ==> {
                    &&& (#[trigger] self@.requests[r0.len() + j]).0 == request_for(all[j]@)
                    &&& logs@[j]@ == command_entry(all[j]@, self@.requests[r0.len() + j].1)
                },
                self@.trace == t0 + logs_view(logs@),
            decreases rest.len(),
        {
            let ghost before = self@.requests;
            let ghost logs_before = logs@;
            let cmd = rest.remove(0);
            assert(cmd == all[i as int]);
            let closing = match cmd {
                MqttCmd::Disconnect => true,
                _ => false,
            };
            let l = self.run_command(cmd);
            logs.push(l);
            proof {
                let now = self@.requests;
                assert(now.take(r0.len() as int) =~= r0) by {
                    assert(now.drop_last() == before);
                    assert forall|j: int| 0 <= j < r0.len() implies now.take(r0.len() as int)[j] == r0[j] by {
                        assert(before.take(r0.len() as int)[j] == r0[j]);
                        assert(now[j] == before[j]);
                    }
                }
                assert forall|j: int| 0 <= j < i + 1 implies {
                    &&& (#[trigger] now[r0.len() + j]).0 == request_for(all[j]@)
                    &&& logs@[j]@ == command_entry(all[j]@, now[r0.len() + j].1)
                } by {
                    if j < i {
                        assert(now[r0.len() + j] == before[r0.len() + j]);
                        assert(logs@[j] == logs_before[j]);
                    }
                }
                assert(logs_view(logs@) =~= logs_view(logs_before).push(l@));
                assert(t0 + logs_view(logs@) =~= (t0 + logs_view(logs_before)).push(l@));
                assert(rest@ =~= all.skip(i + 1));
            }
            i = i + 1;
            if closing {
                proof {
                    assert(first_disconnect_at(all, i - 1));
                    lemma_first_disconnect_unique(all, i - 1);
                }
                return logs;
            }
        }
        proof {
            if exists|k: int| #[trigger] first_disconnect_at(all, k) {
                let k = choose|k: int| #[trigger] first_disconnect_at(all, k);
                assert(!(all[k]@ is Disconnect));
            }
            assert(carried(all) == all.len());
        }
        let ghost logs_before = logs@;
        match self.on_event(ev) {
            Some(l) => {
                logs.push(l);
                proof {
                    assert(logs_view(logs@) =~= logs_view(logs_before).push(l@));
                    assert(t0 + logs_view(logs@) =~= (t0 + logs_view(logs_before)).push(l@));
                }
            },
            None => {},
        }
        logs
    }

    /// Ends the connection after its stream of events has stopped or failed,
    /// and returns the final entry.
    pub fn finish(&mut self) -> (l: MqttLog)
        requires
            old(self)@.phase != SessionPhase::Closed,
        ensures
            l@ == disconnected_entry(),
            final(self)@.phase == SessionPhase::Closed,
            final(self)@.trace == old(self)@.trace.push(l@),
            final(self)@.requests == old(self)@.requests,
            final(self)@.wf(),
    {
        let l = MqttLog::Info(String::from_str("Disconnected"));
        self.progress.close_with(&l);
        l
    }
}

/// A manager that takes in everything a closed connection wrote is no longer
/// connected.
pub proof fn law_closed_session_disconnects_manager(m: ManagerView, s: SessionView)
    requires
        s.wf(),
        s.phase == SessionPhase::Closed,
    ensures
        !poll_spec(m, s.trace).connected,
{
    assert(s.trace[s.trace.len() - 1] == disconnected_entry());
}


/// Only a connection failure ends the stream of events: an acknowledgement, a
/// received message, another packet or an outgoing packet leaves the
/// connection open.
pub proof fn law_only_failure_breaks(ev: NetEventView)
    ensures
        event_breaks(ev) <==> ev is Failure,
        ev is Publish ==> !event_breaks(ev),
        ev is ConnAck ==> !event_breaks(ev),
{
}

/// A received message is logged with its topic and its payload read as text;
/// only an outgoing packet is not logged.
pub proof fn law_event_entries(ev: NetEventView)
    ensures
        ev matches NetEventView::Publish { topic, payload } ==> event_entry(ev) == Some(
            MqttLogView::Recv { topic, payload: utf8_lossy_text(payload) },
        ),
        event_entry(ev) is None <==> ev is Outgoing,
{
}

/// The request made of the client carries the command's own topic, level and
/// payload: a publish is made at the level the user chose and is never
/// retained, a subscribe asks for the lowest level, a disconnect is a
/// disconnect.
pub proof fn law_request_carries_command(cmd: MqttCmdView)
    ensures
        cmd matches MqttCmdView::Publish { topic, qos, payload } ==> request_for(cmd) == (
        ClientRequestView::Publish { topic, qos, retain: false, payload }),
        cmd matches MqttCmdView::Subscribe { topic } ==> request_for(cmd) == (
        ClientRequestView::Subscribe { topic, qos: QoS::AtMostOnce }),
        cmd is Disconnect ==> request_for(cmd) == ClientRequestView::Disconnect,
{
}

} // verus!
