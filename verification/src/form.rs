//! The state behind the client's window: the connection form, the subscribe
//! and publish fields, the list of subscribed topics, and what each button
//! press asks of the manager.

use vstd::prelude::*;
use crate::log::{QoS, Rgb, TransportType, green, red};
use crate::manager::{ConnectPlan, MqttCmd, MqttManager, connect_plan, connect_spec,
    disconnect_spec, client_id_for, MqttCmdView};
use crate::text::{dec_digits, hex_padded16, index_text, parse_u16, parse_u16_text};

verus! {

/// The topics subscribed to from this window, each once, in the order first
/// subscribed.
pub struct Subscriptions {
    topics: Vec<String>,
}

/// The topics of a list, as text.
pub open spec fn topics_view(topics: Seq<String>) -> Seq<Seq<char>> {
    topics.map_values(|t: String| t@)
}

/// The list after subscribing to `topic`: it is added at the end unless it is
/// there already.
pub open spec fn add_topic(list: Seq<Seq<char>>, topic: Seq<char>) -> Seq<Seq<char>> {
    if list.contains(topic) {
        list
    } else {
        list.push(topic)
    }
}

impl View for Subscriptions {
    type V = Seq<Seq<char>>;

    closed spec fn view(&self) -> Seq<Seq<char>> {
        topics_view(self.topics@)
    }
}

impl Subscriptions {
    #[verifier::type_invariant]
    spec fn inv(self) -> bool {
        topics_view(self.topics@).no_duplicates()
    }

    /// An empty list.
    pub fn new() -> (s: Subscriptions)
        ensures
            s@ == Seq::<Seq<char>>::empty(),
    {
        let s = Subscriptions { topics: Vec::new() };
        assert(topics_view(s.topics@) =~= Seq::<Seq<char>>::empty());
        s
    }

    /// The topics, in the order first subscribed.
    pub fn topics(&self) -> (t: &[String])
        ensures
            topics_view(t@) == self@,
            self@.no_duplicates(),
    {
        proof { use_type_invariant(self); }
        self.topics.as_slice()
    }

    /// Whether `topic` is in the list.
    pub fn contains(&self, topic: &str) -> (b: bool)
        ensures
            b == self@.contains(topic@),
    {
        let ghost v = topics_view(self.topics@);
        let wanted = String::from_str(topic);
        let mut i: usize = 0;
        while i < self.topics.len()
            invariant
                i <= self.topics.len(),
                v == topics_view(self.topics@),
                wanted@ == topic@,
                forall|k: int| 0 <= k < i ==> v[k] != topic@,
            decreases self.topics.len() - i,
        {
            assert(v[i as int] == self.topics@[i as int]@);
            if self.topics[i] == wanted {
                assert(v[i as int] == topic@);
                return true;
            }
            i = i + 1;
        }
        false
    }

    /// Subscribes to `topic` in the list: it is added unless it is there.
    pub fn add(&mut self, topic: &str)
        ensures
            final(self)@ == add_topic(old(self)@, topic@),
            final(self)@.no_duplicates(),
    {
        proof { use_type_invariant(&*self); }
        if !self.contains(topic) {
            let mut topics: Vec<String> = Vec::new();
            std::mem::swap(&mut topics, &mut self.topics);
            let ghost before = topics@;
            topics.push(String::from_str(topic));
            assert(topics_view(topics@) =~= topics_view(before).push(topic@));
            proof {
                let v = topics_view(topics@);
                assert forall|i: int, j: int| 0 <= i < v.len() && 0 <= j < v.len() && i != j
                    implies v[i] != v[j] by {
                    if i == v.len() - 1 {
                        assert(topics_view(before)[j] == v[j]);
                    } else if j == v.len() - 1 {
                        assert(topics_view(before)[i] == v[i]);
                    }
                }
            }
            self.topics = topics;
        }
        proof { use_type_invariant(&*self); }
    }
}

/// The line that lists a subscribed topic.
pub fn subscription_line(topic: &String) -> (line: String)
    ensures
        line@ == "  - "@ + topic@,
{
    let mut line = String::from_str("  - ");
    line.append(topic.as_str());
    line
}

/// Subscribing twice to a topic leaves the list as subscribing once does.
pub proof fn law_add_topic_idempotent(list: Seq<Seq<char>>, topic: Seq<char>)
    ensures
        add_topic(add_topic(list, topic), topic) == add_topic(list, topic),
{
    if !list.contains(topic) {
        assert(list.push(topic)[list.len() as int] == topic);
    }
}

/// Subscribing keeps every topic of the list and adds no duplicate.
pub proof fn law_add_topic_keeps_list_unique(list: Seq<Seq<char>>, topic: Seq<char>)
    requires
        list.no_duplicates(),
    ensures
        add_topic(list, topic).no_duplicates(),
        add_topic(list, topic).contains(topic),
        forall|t: Seq<char>| list.contains(t) ==> #[trigger] add_topic(list, topic).contains(t),
{
    let r = add_topic(list, topic);
    if !list.contains(topic) {
        assert(r[list.len() as int] == topic);
        assert forall|t: Seq<char>| list.contains(t) implies #[trigger] r.contains(t) by {
            let k = choose|k: int| 0 <= k < list.len() && list[k] == t;
            assert(r[k] == t);
        }
        assert forall|i: int, j: int| 0 <= i < r.len() && 0 <= j < r.len() && i != j
            implies r[i] != r[j] by {
            if i == list.len() {
                assert(list[j] == r[j]);
            } else if j == list.len() {
                assert(list[i] == r[i]);
            }
        }
    }
}

/// The list after the subscribe button is pressed with `topic` in the field:
/// an empty field changes nothing.
pub open spec fn subscribe_step(list: Seq<Seq<char>>, topic: Seq<char>) -> Seq<Seq<char>> {
    if topic.len() == 0 {
        list
    } else {
        add_topic(list, topic)
    }
}

/// The list after the subscribe button is pressed with each of `topics` in
/// the field, in order.
pub open spec fn subscribe_all(list: Seq<Seq<char>>, topics: Seq<Seq<char>>) -> Seq<Seq<char>>
    decreases topics.len(),
{
    if topics.len() == 0 {
        list
    } else {
        subscribe_step(subscribe_all(list, topics.drop_last()), topics.last())
    }
}

/// The list of a window, whatever was typed and subscribed to, holds each
/// topic once and no empty topic, and it never loses a topic.
pub proof fn law_subscriptions_stay_clean(list: Seq<Seq<char>>, topics: Seq<Seq<char>>)
    requires
        list.no_duplicates(),
        forall|i: int| 0 <= i < list.len() ==> (#[trigger] list[i]).len() > 0,
    ensures
        subscribe_all(list, topics).no_duplicates(),
        forall|i: int| 0 <= i < subscribe_all(list, topics).len()
            ==> (#[trigger] subscribe_all(list, topics)[i]).len() > 0,
        list.is_prefix_of(subscribe_all(list, topics)),
    decreases topics.len(),
{
    if topics.len() > 0 {
        law_subscriptions_stay_clean(list, topics.drop_last());
        let prev = subscribe_all(list, topics.drop_last());
        let t = topics.last();
        if t.len() > 0 {
            law_add_topic_keeps_list_unique(prev, t);
            let next = add_topic(prev, t);
            if !prev.contains(t) {
                assert forall|i: int| 0 <= i < next.len() implies (#[trigger] next[i]).len() > 0 by {
                    if i < prev.len() {
                        assert(next[i] == prev[i]);
                    }
                }
                assert(list.is_prefix_of(next)) by {
                    assert forall|i: int| 0 <= i < list.len() implies list[i] == next[i] by {
                        assert(list[i] == prev[i]);
                    }
                }
            }
        }
    } else {
        assert(list.is_prefix_of(list)) by {
            assert(list.subrange(0, list.len() as int) =~= list);
        }
    }
}

/// The quality of service for the index chosen in the publish form: 1 and 2
/// pick their level, anything else the lowest.
pub open spec fn qos_for_index(i: usize) -> QoS {
    if i == 1 {
        QoS::AtLeastOnce
    } else if i == 2 {
        QoS::ExactlyOnce
    } else {
        QoS::AtMostOnce
    }
}

/// The quality of service for the index chosen in the publish form.
pub fn qos_from_index(i: usize) -> (q: QoS)
    ensures
        q == qos_for_index(i),
{
    match i {
        1 => QoS::AtLeastOnce,
        2 => QoS::ExactlyOnce,
        _ => QoS::AtMostOnce,
    }
}

/// The port field after a change of transport or of the field: the port of the
/// other transport, or nothing, gives way to the default port of this one.
pub open spec fn normalized_port(transport: TransportType, port: Seq<char>) -> Seq<char> {
    match transport {
        TransportType::Tcp => if port == "9001"@ || port.len() == 0 {
            "1883"@
        } else {
            port
        },
        TransportType::Ws => if port == "1883"@ || port.len() == 0 {
            "9001"@
        } else {
            port
        },
    }
}

/// The port field settles at once: it is never empty nor the other
/// transport's default, and adjusting it again changes nothing.
pub proof fn law_normalized_port_settles(transport: TransportType, port: Seq<char>)
    ensures
        normalized_port(transport, normalized_port(transport, port)) == normalized_port(transport, port),
        normalized_port(transport, port).len() > 0,
        transport == TransportType::Tcp ==> normalized_port(transport, port) != "9001"@,
        transport == TransportType::Ws ==> normalized_port(transport, port) != "1883"@,
{
    reveal_strlit("1883");
    reveal_strlit("9001");
    assert("1883"@ != "9001"@) by {
        assert("1883"@[0] != "9001"@[0]);
    }
}

/// The port to connect to: the field read as a port number, or 1883 when it
/// is not one.
pub open spec fn port_or_default(port: Seq<char>) -> u16 {
    match parse_u16(port) {
        Some(p) => p,
        None => 1883,
    }
}

/// What a button press asks the caller to do.
pub enum UiAction {
    /// Nothing.
    Nothing,
    /// Hand this command to the running connection.
    Send(MqttCmd),
    /// Open a connection by this plan.
    Open(ConnectPlan),
}

/// The state behind the window.
pub struct MqttApp {
    pub host: String,
    pub port: String,
    pub path: String,
    pub username: String,
    pub password: String,
    pub transport: TransportType,
    pub sub_topic: String,
    pub subscriptions: Subscriptions,
    pub pub_topic: String,
    pub pub_msg: String,
    pub pub_qos: usize,
    pub manager: MqttManager,
}

impl Default for MqttApp {
    /// The form as the window opens: a TCP connection to 47.109.52.219:1883,
    /// path `/mqtt`, user `longzheng0315`, empty password and fields, the
    /// lowest quality of service and a manager that is not connected.
    fn default() -> (app: MqttApp)
        ensures
            app.host@ == "47.109.52.219"@,
            app.port@ == "1883"@,
            app.path@ == "/mqtt"@,
            app.username@ == "longzheng0315"@,
            app.password@ == Seq::<char>::empty(),
            app.transport == TransportType::Tcp,
            app.sub_topic@ == Seq::<char>::empty(),
            app.subscriptions@ == Seq::<Seq<char>>::empty(),
            app.pub_topic@ == Seq::<char>::empty(),
            app.pub_msg@ == Seq::<char>::empty(),
            app.pub_qos == 0,
            app.manager@.logs == Seq::<crate::log::MqttLogView>::empty(),
            !app.manager@.connected,
            !app.manager@.session_open,
    {
        MqttApp {
            host: String::from_str("47.109.52.219"),
            port: String::from_str("1883"),
            path: String::from_str("/mqtt"),
            username: String::from_str("longzheng0315"),
            password: String::new(),
            transport: TransportType::Tcp,
            sub_topic: String::new(),
            subscriptions: Subscriptions::new(),
            pub_topic: String::new(),
            pub_msg: String::new(),
            pub_qos: 0,
            manager: MqttManager::new(),
        }
    }
}

impl MqttApp {
    /// Adjusts the port field to the chosen transport.
    pub fn normalize_port(&mut self)
        ensures
            final(self).port@ == normalized_port(old(self).transport, old(self).port@),
            final(self).host == old(self).host,
            final(self).path == old(self).path,
            final(self).username == old(self).username,
            final(self).password == old(self).password,
            final(self).transport == old(self).transport,
            final(self).sub_topic == old(self).sub_topic,
            final(self).subscriptions == old(self).subscriptions,
            final(self).pub_topic == old(self).pub_topic,
            final(self).pub_msg == old(self).pub_msg,
            final(self).pub_qos == old(self).pub_qos,
            final(self).manager == old(self).manager,
    {
        let empty = self.port.as_str().is_empty();
        match self.transport {
            TransportType::Tcp => {
                if self.port == String::from_str("9001") || empty {
                    self.port = String::from_str("1883");
                }
            },
            TransportType::Ws => {
                if self.port == String::from_str("1883") || empty {
                    self.port = String::from_str("9001");
                }
            },
        }
    }

    /// The text that shows the chosen quality-of-service index.
    pub fn qos_choice_text(&self) -> (t: String)
        ensures
            t@ == dec_digits(self.pub_qos as nat),
    {
        index_text(self.pub_qos)
    }

    /// The text of the connect button.
    pub fn connect_button_text(&self) -> (t: String)
        ensures
            t@ == (if self.manager@.connected { "Disconnect"@ } else { "Connect"@ }),
    {
        if self.manager.connected() {
            String::from_str("Disconnect")
        } else {
            String::from_str("Connect")
        }
    }

    /// The fill of the connect button.
    pub fn connect_button_color(&self) -> (c: Rgb)
        ensures
            c == (if self.manager@.connected { red() } else { green() }),
    {
        if self.manager.connected() {
            Rgb { r: 231, g: 76, b: 60 }
        } else {
            Rgb { r: 46, g: 204, b: 113 }
        }
    }

    /// The colour and text of the status bar.
    pub fn status(&self) -> (s: (Rgb, String))
        ensures
            s.0 == (if self.manager@.connected { green() } else { red() }),
            s.1@ == (if self.manager@.connected { "Connected"@ } else { "Disconnected"@ }),
    {
        if self.manager.connected() {
            (Rgb { r: 46, g: 204, b: 113 }, String::from_str("Connected"))
        } else {
            (Rgb { r: 231, g: 76, b: 60 }, String::from_str("Disconnected"))
        }
    }

    /// The connect button: disconnects a connected manager, and otherwise
    /// connects it to the broker of the form, at the port of the field or 1883.
    pub fn on_connect_clicked(&mut self) -> (a: UiAction)
        ensures
            final(self).subscriptions == old(self).subscriptions,
            final(self).port == old(self).port,
            final(self).host == old(self).host,
            final(self).path == old(self).path,
            final(self).username == old(self).username,
            final(self).password == old(self).password,
            final(self).transport == old(self).transport,
            final(self).sub_topic == old(self).sub_topic,
            final(self).pub_topic == old(self).pub_topic,
            final(self).pub_msg == old(self).pub_msg,
            final(self).pub_qos == old(self).pub_qos,
            old(self).manager@.connected ==> {
                &&& final(self).manager@ == disconnect_spec(old(self).manager@)
                &&& a matches UiAction::Send(c) && c@ == MqttCmdView::Disconnect
            },
            !old(self).manager@.connected ==> a is Open,
            !old(self).manager@.connected ==> match a {
                UiAction::Open(p) => {
                    &&& final(self).manager@ == connect_spec(old(self).manager@)
                    &&& exists|t: u128| p@.client_id == client_id_for(#[trigger] hex_padded16(t as nat))
                    &&& p@ == connect_plan(p@.client_id, old(self).host@,
                        port_or_default(old(self).port@), old(self).path@, old(self).username@,
                        old(self).password@, old(self).transport)
                },
                UiAction::Nothing => final(self).manager@ == old(self).manager@,
                UiAction::Send(_) => false,
            },
    {
        if self.manager.connected() {
            match self.manager.disconnect() {
                Some(c) => UiAction::Send(c),
                None => UiAction::Nothing,
            }
        } else {
            let port: u16 = match parse_u16_text(self.port.as_str()) {
                Some(p) => p,
                None => 1883,
            };
            match self.manager.connect(
                self.host.as_str(),
                port,
                self.path.as_str(),
                self.username.as_str(),
                self.password.as_str(),
                self.transport,
            ) {
                Some(plan) => UiAction::Open(plan),
                None => UiAction::Nothing,
            }
        }
    }

    /// The subscribe button: with a topic in the field, subscribes to it
    /// through the manager and lists it once.
    pub fn on_subscribe_clicked(&mut self) -> (a: UiAction)
        ensures
            final(self).manager == old(self).manager,
            final(self).port == old(self).port,
            final(self).subscriptions@ == subscribe_step(old(self).subscriptions@, old(self).sub_topic@),
            final(self).host == old(self).host,
            final(self).path == old(self).path,
            final(self).username == old(self).username,
            final(self).password == old(self).password,
            final(self).transport == old(self).transport,
            final(self).sub_topic == old(self).sub_topic,
            final(self).pub_topic == old(self).pub_topic,
            final(self).pub_msg == old(self).pub_msg,
            final(self).pub_qos == old(self).pub_qos,
            old(self).sub_topic@.len() == 0 ==> {
                &&& a is Nothing
                &&& final(self).subscriptions == old(self).subscriptions
            },
            old(self).sub_topic@.len() > 0 ==> {
                &&& final(self).subscriptions@ == add_topic(old(self).subscriptions@, old(self).sub_topic@)
                &&& (a is Send <==> old(self).manager@.session_open)
                &&& a matches UiAction::Send(c) ==> c@ == (MqttCmdView::Subscribe { topic: old(self).sub_topic@ })
                &&& !(a is Open)
            },
    {
        if self.sub_topic.as_str().is_empty() {
            return UiAction::Nothing;
        }
        let cmd = self.manager.subscribe(self.sub_topic.as_str());
        self.subscriptions.add(self.sub_topic.as_str());
        match cmd {
            Some(c) => UiAction::Send(c),
            None => UiAction::Nothing,
        }
    }

    /// The publish button: with a topic in the field, publishes the message at
    /// the chosen quality of service through the manager.
    pub fn on_publish_clicked(&self) -> (a: UiAction)
        ensures
            self.pub_topic@.len() == 0 ==> a is Nothing,
            self.pub_topic@.len() > 0 ==> {
                &&& (a is Send <==> self.manager@.session_open)
                &&& a matches UiAction::Send(c) ==> c@ == (MqttCmdView::Publish {
                    topic: self.pub_topic@,
                    qos: qos_for_index(self.pub_qos),
                    payload: self.pub_msg@,
                })
                &&& !(a is Open)
            },
    {
        if self.pub_topic.as_str().is_empty() {
            return UiAction::Nothing;
        }
        let qos = qos_from_index(self.pub_qos);
        match self.manager.publish(self.pub_topic.as_str(), qos, self.pub_msg.as_str()) {
            Some(c) => UiAction::Send(c),
            None => UiAction::Nothing,
        }
    }
}

} // verus!
