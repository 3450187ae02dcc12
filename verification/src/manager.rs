//! The connection manager: the log it keeps, whether it is connected, and the
//! commands it hands to the running connection.

use vstd::prelude::*;
use crate::clock::rand_hex;
use crate::log::{MqttLog, MqttLogView, QoS, TransportType, disconnected_entry, logs_view};
use crate::broker::{ClientRequestView, ConnectionSetup, OptionsView, client_requests, connection_setup,
    new_client, new_options, options_view, set_clean_session, set_credentials, set_keep_alive_secs,
    set_websocket_transport};
use crate::text::{dec_digits, hex_padded16, port_text};

verus! {

/// A request from the user to the running connection.
pub enum MqttCmd {
    Publish { topic: String, qos: QoS, payload: String },
    Subscribe { topic: String },
    Disconnect,
}

/// A command as text.
pub enum MqttCmdView {
    Publish { topic: Seq<char>, qos: QoS, payload: Seq<char> },
    Subscribe { topic: Seq<char> },
    Disconnect,
}

impl View for MqttCmd {
    type V = MqttCmdView;

    open spec fn view(&self) -> MqttCmdView {
        match self {
            MqttCmd::Publish { topic, qos, payload } => MqttCmdView::Publish {
                topic: topic@,
                qos: *qos,
                payload: payload@,
            },
            MqttCmd::Subscribe { topic } => MqttCmdView::Subscribe { topic: topic@ },
            MqttCmd::Disconnect => MqttCmdView::Disconnect,
        }
    }
}

/// Everything needed to open a connection to a broker.
pub struct ConnectPlan {
    pub client_id: String,
    pub host: String,
    pub port: u16,
    pub username: String,
    pub password: String,
    pub transport: TransportType,
    pub keep_alive_secs: u64,
    pub request_capacity: usize,
    /// The entry that announces the attempt in the log.
    pub greeting: MqttLog,
}

/// A connection plan as plain values.
pub struct ConnectPlanView {
    pub client_id: Seq<char>,
    pub host: Seq<char>,
    pub port: u16,
    pub username: Seq<char>,
    pub password: Seq<char>,
    pub transport: TransportType,
    pub keep_alive_secs: u64,
    pub request_capacity: usize,
    pub greeting: MqttLogView,
}

impl View for ConnectPlan {
    type V = ConnectPlanView;

    open spec fn view(&self) -> ConnectPlanView {
        ConnectPlanView {
            client_id: self.client_id@,
            host: self.host@,
            port: self.port,
            username: self.username@,
            password: self.password@,
            transport: self.transport,
            keep_alive_secs: self.keep_alive_secs,
            request_capacity: self.request_capacity,
            greeting: self.greeting@,
        }
    }
}

/// The client identifier made from a clock reading in hex.
pub open spec fn client_id_for(hex: Seq<char>) -> Seq<char> {
    "rust_test_"@ + hex
}

/// The text that announces a connection attempt.
pub open spec fn connecting_text(host: Seq<char>, port: u16, path: Seq<char>) -> Seq<char> {
    "Connecting to "@ + host + ":"@ + dec_digits(port as nat) + "/"@ + path + " ..."@
}

/// The plan for a connection: thirty seconds of keep-alive and room for ten
/// pending requests.
pub open spec fn connect_plan(
    client_id: Seq<char>,
    host: Seq<char>,
    port: u16,
    path: Seq<char>,
    username: Seq<char>,
    password: Seq<char>,
    transport: TransportType,
) -> ConnectPlanView {
    ConnectPlanView {
        client_id,
        host,
        port,
        username,
        password,
        transport,
        keep_alive_secs: 30,
        request_capacity: 10,
        greeting: MqttLogView::Info(connecting_text(host, port, path)),
    }
}

/// Builds the plan for a connection under a given client identifier.
pub fn plan_connection(
    client_id: String,
    host: &str,
    port: u16,
    path: &str,
    username: &str,
    password: &str,
    transport: TransportType,
) -> (plan: ConnectPlan)
    ensures
        plan@ == connect_plan(client_id@, host@, port, path@, username@, password@, transport),
{
    let mut text = String::from_str("Connecting to ");
    text.append(host);
    text.append(":");
    let port_digits = port_text(port);
    text.append(port_digits.as_str());
    text.append("/");
    text.append(path);
    text.append(" ...");
    ConnectPlan {
        client_id,
        host: String::from_str(host),
        port,
        username: String::from_str(username),
        password: String::from_str(password),
        transport,
        keep_alive_secs: 30,
        request_capacity: 10,
        greeting: MqttLog::Info(text),
    }
}

/// The `rumqttc` options for a plan: its client id, broker address and
/// credentials, a clean session, its keep-alive, and the WebSocket transport
/// exactly when the plan asks for it. The path is not among them: it only
/// appears in the greeting.
pub open spec fn plan_options(p: ConnectPlanView) -> OptionsView {
    OptionsView {
        client_id: p.client_id,
        host: p.host,
        port: p.port,
        credentials: Some((p.username, p.password)),
        clean_session: true,
        keep_alive_secs: p.keep_alive_secs as nat,
        websocket: p.transport == TransportType::Ws,
    }
}

impl ConnectPlan {
    /// The client and the connection for this plan: the connection is built
    /// with the plan's options and request capacity, and no request has been
    /// made of the client yet.
    pub fn open(&self) -> (pair: (rumqttc::Client, rumqttc::Connection))
        ensures
            connection_setup(pair.1) == (ConnectionSetup {
                options: plan_options(self@),
                capacity: self.request_capacity,
            }),
            client_requests(pair.0) == Seq::<(ClientRequestView, bool)>::empty(),
    {
        new_client(self.to_options(), self.request_capacity)
    }

    /// The `rumqttc` options for this plan.
    pub fn to_options(&self) -> (o: rumqttc::MqttOptions)
        ensures
            options_view(o) == plan_options(self@),
    {
        let mut o = new_options(self.client_id.as_str(), self.host.as_str(), self.port);
        set_credentials(&mut o, self.username.as_str(), self.password.as_str());
        set_clean_session(&mut o, true);
        set_keep_alive_secs(&mut o, self.keep_alive_secs);
        match self.transport {
            TransportType::Tcp => {},
            TransportType::Ws => set_websocket_transport(&mut o),
        }
        o
    }
}

/// The manager's state: its log, whether it is connected, and whether a
/// connection is there to take commands.
pub struct ManagerView {
    pub logs: Seq<MqttLogView>,
    pub connected: bool,
    pub session_open: bool,
}

impl ManagerView {
    /// A connected manager always has a connection to send commands to.
    pub open spec fn wf(self) -> bool {
        self.connected ==> self.session_open
    }
}

/// The state after receiving a batch of log entries: they are appended in
/// order, and an entry announcing the end of the connection clears the
/// connected flag.
pub open spec fn poll_spec(m: ManagerView, batch: Seq<MqttLogView>) -> ManagerView {
    ManagerView {
        logs: m.logs + batch,
        connected: m.connected && !batch.contains(disconnected_entry()),
        session_open: m.session_open,
    }
}

/// The state after the user disconnects.
pub open spec fn disconnect_spec(m: ManagerView) -> ManagerView {
    ManagerView { logs: m.logs, connected: false, session_open: false }
}

/// The state after a connection is opened.
pub open spec fn connect_spec(m: ManagerView) -> ManagerView {
    ManagerView { logs: m.logs, connected: true, session_open: true }
}

/// Keeps the log of the client, its connection state, and hands the user's
/// requests to the running connection.
pub struct MqttManager {
    logs: Vec<MqttLog>,
    connected: bool,
    session_open: bool,
}

impl View for MqttManager {
    type V = ManagerView;

    closed spec fn view(&self) -> ManagerView {
        ManagerView {
            logs: logs_view(self.logs@),
            connected: self.connected,
            session_open: self.session_open,
        }
    }
}

impl MqttManager {
    #[verifier::type_invariant]
    spec fn inv(self) -> bool {
        self.connected ==> self.session_open
    }

    /// A manager with an empty log, not connected.
    pub fn new() -> (m: MqttManager)
        ensures
            m@.logs == Seq::<MqttLogView>::empty(),
            !m@.connected,
            !m@.session_open,
    {
        let m = MqttManager { logs: Vec::new(), connected: false, session_open: false };
        assert(logs_view(m.logs@) =~= Seq::<MqttLogView>::empty());
        m
    }

    /// Whether the manager is connected.
    pub fn connected(&self) -> (b: bool)
        ensures
            b == self@.connected,
            self@.wf(),
    {
        proof { use_type_invariant(self); }
        self.connected
    }

    /// Whether a connection is there to take commands.
    pub fn has_session(&self) -> (b: bool)
        ensures
            b == self@.session_open,
    {
        self.session_open
    }

    /// The log, oldest entry first.
    pub fn logs(&self) -> (l: &[MqttLog])
        ensures
            logs_view(l@) == self@.logs,
    {
        self.logs.as_slice()
    }

    /// Takes in the entries that the connection has written since the last
    /// poll, in the order written.
    pub fn poll(&mut self, received: Vec<MqttLog>)
        ensures
            final(self)@ == poll_spec(old(self)@, logs_view(received@)),
            final(self)@.wf(),
    {
        proof { use_type_invariant(&*self); }
        let ghost batch = logs_view(received@);
        let mut received = received;
        let mut seen: bool = false;
        let mut i: usize = 0;
        while i < received.len()
            invariant
                i <= received.len(),
                batch == logs_view(received@),
                seen <==> (exists|k: int| 0 <= k < i && #[trigger] batch[k] == disconnected_entry()),
            decreases received.len() - i,
        {
            let hit = received[i].is_disconnected_notice();
            assert(batch[i as int] == received@[i as int]@);
            seen = seen || hit;
            i = i + 1;
        }

        let ghost old_logs = self.logs@;
        if seen {
            self.connected = false;
        }
        let mut logs: Vec<MqttLog> = Vec::new();
        std::mem::swap(&mut logs, &mut self.logs);
        logs.append(&mut received);
        self.logs = logs;
        assert(logs_view(self.logs@) =~= logs_view(old_logs) + batch);
        proof { use_type_invariant(&*self); }
    }

    /// Opens a connection unless one is already up: the plan for it is returned
    /// and the manager counts as connected from then on. Nothing happens when
    /// the manager is connected.
    pub fn connect(
        &mut self,
        host: &str,
        port: u16,
        path: &str,
        username: &str,
        password: &str,
        transport: TransportType,
    ) -> (plan: Option<ConnectPlan>)
        ensures
            old(self)@.connected ==> plan is None,
            !old(self)@.connected ==> plan is Some,
            plan is None ==> final(self)@ == old(self)@,
            plan matches Some(p) ==> {
                &&& final(self)@ == connect_spec(old(self)@)
                &&& exists|t: u128| p@.client_id == client_id_for(#[trigger] hex_padded16(t as nat))
                &&& p@ == connect_plan(p@.client_id, host@, port, path@, username@, password@, transport)
            },
            final(self)@.wf(),
    {
        if self.connected() {
            return None;
        }
        match rand_hex() {
            None => None,
            Some(hex) => self.connect_with_hex(hex, host, port, path, username, password, transport),
        }
    }

    /// Opens a connection under the client identifier made from `hex`, unless
    /// the manager is connected already; the plan for it is returned.
    pub fn connect_with_hex(
        &mut self,
        hex: String,
        host: &str,
        port: u16,
        path: &str,
        username: &str,
        password: &str,
        transport: TransportType,
    ) -> (plan: Option<ConnectPlan>)
        ensures
            old(self)@.connected ==> plan is None && final(self)@ == old(self)@,
            !old(self)@.connected ==> (plan matches Some(p) && {
                &&& final(self)@ == connect_spec(old(self)@)
                &&& p@ == connect_plan(client_id_for(hex@), host@, port, path@, username@,
                    password@, transport)
            }),
            final(self)@.wf(),
    {
        proof { use_type_invariant(&*self); }
        if self.connected {
            return None;
        }
        let mut id = String::from_str("rust_test_");
        id.append(hex.as_str());
        let plan = plan_connection(id, host, port, path, username, password, transport);
        self.session_open = true;
        self.connected = true;
        proof { use_type_invariant(&*self); }
        Some(plan)
    }

    /// The command that publishes `payload` on `topic`, when a connection is
    /// there to take it.
    pub fn publish(&self, topic: &str, qos: QoS, payload: &str) -> (cmd: Option<MqttCmd>)
        ensures
            cmd is Some <==> self@.session_open,
            cmd matches Some(c) ==> c@ == (MqttCmdView::Publish { topic: topic@, qos, payload: payload@ }),
    {
        if self.session_open {
            Some(MqttCmd::Publish {
                topic: String::from_str(topic),
                qos,
                payload: String::from_str(payload),
            })
        } else {
            None
        }
    }

    /// The command that subscribes to `topic`, when a connection is there to
    /// take it.
    pub fn subscribe(&self, topic: &str) -> (cmd: Option<MqttCmd>)
        ensures
            cmd is Some <==> self@.session_open,
            cmd matches Some(c) ==> c@ == (MqttCmdView::Subscribe { topic: topic@ }),
    {
        if self.session_open {
            Some(MqttCmd::Subscribe { topic: String::from_str(topic) })
        } else {
            None
        }
    }

    /// Drops the connection: the command that tells it to stop is returned when
    /// one is there, and the manager is neither connected nor holding a
    /// connection afterwards.
    pub fn disconnect(&mut self) -> (cmd: Option<MqttCmd>)
        ensures
            cmd is Some <==> old(self)@.session_open,
            cmd matches Some(c) ==> c@ == MqttCmdView::Disconnect,
            final(self)@ == disconnect_spec(old(self)@),
            final(self)@.wf(),
    {
        let cmd = if self.session_open {
            Some(MqttCmd::Disconnect)
        } else {
            None
        };
        self.connected = false;
        self.session_open = false;
        cmd
    }
}

/// Disconnecting twice leaves the manager as disconnecting once does.
pub proof fn law_disconnect_idempotent(m: ManagerView)
    ensures
        disconnect_spec(disconnect_spec(m)) == disconnect_spec(m),
{
}

/// Taking in entries in two batches is the same as taking them in at once:
/// it does not matter how many entries each poll finds.
pub proof fn law_poll_batches_compose(m: ManagerView, a: Seq<MqttLogView>, b: Seq<MqttLogView>)
    ensures
        poll_spec(poll_spec(m, a), b) == poll_spec(m, a + b),
{
    assert(m.logs + a + b =~= m.logs + (a + b));
    assert((a + b).contains(disconnected_entry()) <==> (a.contains(disconnected_entry())
        || b.contains(disconnected_entry()))) by {
        if (a + b).contains(disconnected_entry()) {
            let k = choose|k: int| 0 <= k < (a + b).len() && (a + b)[k] == disconnected_entry();
            if k < a.len() {
                assert(a[k] == disconnected_entry());
            } else {
                assert(b[k - a.len()] == disconnected_entry());
            }
        }
        if a.contains(disconnected_entry()) {
            let k = choose|k: int| 0 <= k < a.len() && a[k] == disconnected_entry();
            assert((a + b)[k] == disconnected_entry());
        }
        if b.contains(disconnected_entry()) {
            let k = choose|k: int| 0 <= k < b.len() && b[k] == disconnected_entry();
            assert((a + b)[k + a.len()] == disconnected_entry());
        }
    }
}

/// Once the entry that ends a connection has been taken in, the manager is
/// not connected, and every state it can reach keeps the connected flag only
/// where a connection is there to take commands.
pub proof fn law_end_of_connection_disconnects(m: ManagerView, batch: Seq<MqttLogView>)
    requires
        batch.contains(disconnected_entry()),
    ensures
        !poll_spec(m, batch).connected,
        m.wf() ==> poll_spec(m, batch).wf(),
{
}


/// A call that changes the manager's state: opening a connection (a
/// `connect` that found the manager not connected and made a plan),
/// disconnecting, or taking in a batch of entries. Publishing and subscribing
/// leave the state as it is.
pub enum ManagerOp {
    Open,
    Disconnect,
    Poll(Seq<MqttLogView>),
}

/// The state after one call.
pub open spec fn step(m: ManagerView, op: ManagerOp) -> ManagerView {
    match op {
        ManagerOp::Open => if m.connected { m } else { connect_spec(m) },
        ManagerOp::Disconnect => disconnect_spec(m),
        ManagerOp::Poll(batch) => poll_spec(m, batch),
    }
}

/// The state after a sequence of calls, in order.
pub open spec fn run_ops(m: ManagerView, ops: Seq<ManagerOp>) -> ManagerView
    decreases ops.len(),
{
    if ops.len() == 0 {
        m
    } else {
        step(run_ops(m, ops.drop_last()), ops.last())
    }
}

/// Whether a call ends the connection: a disconnect, or a batch holding the
/// entry that a connection writes when it has ended.
pub open spec fn ends_connection(op: ManagerOp) -> bool {
    match op {
        ManagerOp::Open => false,
        ManagerOp::Disconnect => true,
        ManagerOp::Poll(batch) => batch.contains(disconnected_entry()),
    }
}

/// The call at `i` opened a connection, and no later call ended it.
pub open spec fn opened_and_kept(m: ManagerView, ops: Seq<ManagerOp>, i: int) -> bool {
    &&& 0 <= i < ops.len()
    &&& ops[i] is Open
    &&& !run_ops(m, ops.take(i)).connected
    &&& forall|j: int| i < j < ops.len() ==> !ends_connection(#[trigger] ops[j])
}

/// The entries of all batches taken in, in order.
pub open spec fn polled(ops: Seq<ManagerOp>) -> Seq<MqttLogView>
    decreases ops.len(),
{
    if ops.len() == 0 {
        Seq::empty()
    } else {
        let rest = polled(ops.drop_last());
        match ops.last() {
            ManagerOp::Poll(batch) => rest + batch,
            _ => rest,
        }
    }
}

/// Starting from a manager that is not connected, it is connected after a
/// sequence of calls exactly when some call in it opened a connection and no
/// later call ended it.
pub proof fn law_connected_history(m: ManagerView, ops: Seq<ManagerOp>)
    requires
        !m.connected,
    ensures
        run_ops(m, ops).connected <==> exists|i: int| #[trigger] opened_and_kept(m, ops, i),
    decreases ops.len(),
{
    if ops.len() > 0 {
        let prev = ops.drop_last();
        let last = ops.last();
        let n = ops.len() - 1;
        law_connected_history(m, prev);
        assert forall|i: int| 0 <= i <= n implies #[trigger] ops.take(i) =~= prev.take(i) by {}
        assert(ops.take(n) =~= prev);
        if run_ops(m, ops).connected {
            if run_ops(m, prev).connected {
                let i = choose|i: int| #[trigger] opened_and_kept(m, prev, i);
                assert(ops.take(i) =~= prev.take(i));
                assert forall|j: int| i < j < ops.len() implies !ends_connection(#[trigger] ops[j]) by {
                    if j < n {
                        assert(prev[j] == ops[j]);
                    }
                }
                assert(opened_and_kept(m, ops, i));
            } else {
                assert(opened_and_kept(m, ops, n));
            }
        } else {
            if exists|i: int| #[trigger] opened_and_kept(m, ops, i) {
                let i = choose|i: int| #[trigger] opened_and_kept(m, ops, i);
                if i == n {
                    assert(!run_ops(m, prev).connected);
                } else {
                    assert(ops.take(i) =~= prev.take(i));
                    assert forall|j: int| i < j < prev.len() implies !ends_connection(#[trigger] prev[j]) by {
                        assert(prev[j] == ops[j]);
                        assert(!ends_connection(ops[j]));
                    }
                    assert(opened_and_kept(m, prev, i));
                    assert(!ends_connection(ops[n]));
                }
            }
        }
    }
}

/// The log only grows: after any sequence of calls it is the log before,
/// followed by the entries of the batches taken in, in order. Without a poll
/// it is unchanged.
pub proof fn law_log_append_only(m: ManagerView, ops: Seq<ManagerOp>)
    ensures
        run_ops(m, ops).logs == m.logs + polled(ops),
        m.logs.is_prefix_of(run_ops(m, ops).logs),
        (forall|j: int| 0 <= j < ops.len() ==> !(#[trigger] ops[j] is Poll)) ==> run_ops(m, ops).logs == m.logs,
    decreases ops.len(),
{
    if ops.len() > 0 {
        let prev = ops.drop_last();
        law_log_append_only(m, prev);
        if forall|j: int| 0 <= j < ops.len() ==> !(#[trigger] ops[j] is Poll) {
            assert forall|j: int| 0 <= j < prev.len() implies !(#[trigger] prev[j] is Poll) by {
                assert(prev[j] == ops[j]);
            }
            assert(!(ops[ops.len() - 1] is Poll));
        }
        match ops.last() {
            ManagerOp::Poll(batch) => {
                assert(m.logs + polled(prev) + batch =~= m.logs + (polled(prev) + batch));
            },
            _ => {},
        }
    } else {
        assert(m.logs + polled(ops) =~= m.logs);
    }
    assert(m.logs.is_prefix_of(m.logs + polled(ops))) by {
        assert((m.logs + polled(ops)).subrange(0, m.logs.len() as int) =~= m.logs);
    }
}


/// A connection goes to the broker of the form, whatever it is: the host,
/// port, credentials and transport of the plan and of its `rumqttc` options
/// are those given, WebSocket exactly when asked for, always with a clean
/// session, and the client identifier is the clock text after `rust_test_`.
pub proof fn law_plan_follows_form(
    hex: Seq<char>,
    host: Seq<char>,
    port: u16,
    path: Seq<char>,
    username: Seq<char>,
    password: Seq<char>,
    transport: TransportType,
)
    ensures
        ({
            let p = connect_plan(client_id_for(hex), host, port, path, username, password, transport);
            let o = plan_options(p);
            &&& p.transport == transport
            &&& o.host == host && o.port == port
            &&& o.credentials == Some((username, password))
            &&& o.clean_session
            &&& (o.websocket <==> transport == TransportType::Ws)
            &&& o.client_id.len() == 10 + hex.len()
            &&& o.client_id.subrange(10, o.client_id.len() as int) == hex
        }),
{
    reveal_strlit("rust_test_");
    let id = client_id_for(hex);
    assert(id.subrange(10, id.len() as int) =~= hex);
}

} // verus!
