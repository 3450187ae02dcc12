//! The `rumqttc` types that the library carries: the connection options, built
//! from plain values, the client with the requests made of it, and the
//! connection that drives it. Their contents are modelled by names that the
//! calls here speak of.

use vstd::prelude::*;
use crate::log::QoS;

verus! {

#[verifier::external_type_specification]
#[verifier::external_body]
pub struct ExMqttOptions(rumqttc::MqttOptions);

#[verifier::external_type_specification]
#[verifier::external_body]
pub struct ExClient(rumqttc::Client);

#[verifier::external_type_specification]
#[verifier::external_body]
pub struct ExConnection(rumqttc::Connection);

/// The settings of `rumqttc::MqttOptions` that this library sets, as read back
/// by its getters `client_id`, `broker_address`, `credentials`,
/// `clean_session`, `keep_alive` (in whole seconds) and `transport` (whether
/// it is `Transport::Ws`).
pub struct OptionsView {
    pub client_id: Seq<char>,
    pub host: Seq<char>,
    pub port: u16,
    pub credentials: Option<(Seq<char>, Seq<char>)>,
    pub clean_session: bool,
    pub keep_alive_secs: nat,
    pub websocket: bool,
}

/// What an options value holds.
pub uninterp spec fn options_view(o: rumqttc::MqttOptions) -> OptionsView;

/// What a connection was built with: its options and the capacity of the
/// request queue it shares with its client.
pub struct ConnectionSetup {
    pub options: OptionsView,
    pub capacity: usize,
}

/// What a connection was built with.
pub uninterp spec fn connection_setup(c: rumqttc::Connection) -> ConnectionSetup;

/// A request made of the `rumqttc` client, as plain values.
pub enum ClientRequestView {
    Publish { topic: Seq<char>, qos: QoS, retain: bool, payload: Seq<char> },
    Subscribe { topic: Seq<char>, qos: QoS },
    Disconnect,
}

/// The requests made of a client so far, oldest first, each with whether the
/// client queued it for its event loop.
pub uninterp spec fn client_requests(c: rumqttc::Client) -> Seq<(ClientRequestView, bool)>;

/// A topic that `rumqttc` accepts for publishing holds no wildcard.
pub open spec fn topic_is_valid(topic: Seq<char>) -> bool {
    !topic.contains('+') && !topic.contains('#')
}

/// The text of every error of the `rumqttc` client.
pub open spec fn client_error_text() -> Seq<char> {
    "Failed to send mqtt requests to eventloop"@
}

/// `rumqttc::Client::new`: a client and the connection whose iteration drives
/// it, sharing a request queue of `capacity` entries; no request has been made
/// of the client yet. It builds a runtime for the connection and panics if
/// that fails, which no argument decides.
#[verifier::external_body]
pub(crate) fn new_client(options: rumqttc::MqttOptions, capacity: usize)
    -> (pair: (rumqttc::Client, rumqttc::Connection))
    ensures
        connection_setup(pair.1) == (ConnectionSetup { options: options_view(options), capacity }),
        client_requests(pair.0) == Seq::<(ClientRequestView, bool)>::empty(),
{
    rumqttc::Client::new(options, capacity)
}

/// `rumqttc::MqttOptions::new`: options for a client id, broker host and port;
/// no credentials, a clean session, sixty seconds of keep-alive, TCP.
#[verifier::external_body]
pub(crate) fn new_options(client_id: &str, host: &str, port: u16) -> (o: rumqttc::MqttOptions)
    ensures
        options_view(o) == (OptionsView {
            client_id: client_id@,
            host: host@,
            port,
            credentials: None,
            clean_session: true,
            keep_alive_secs: 60,
            websocket: false,
        }),
{
    rumqttc::MqttOptions::new(client_id, host, port)
}

/// `rumqttc::MqttOptions::set_credentials`: sets the user name and password,
/// and nothing else.
#[verifier::external_body]
pub(crate) fn set_credentials(o: &mut rumqttc::MqttOptions, username: &str, password: &str)
    ensures
        options_view(*final(o)) == (OptionsView {
            credentials: Some((username@, password@)),
            ..options_view(*old(o))
        }),
{
    o.set_credentials(username, password);
}

/// `rumqttc::MqttOptions::set_clean_session`, which sets that flag and nothing
/// else. It panics when the clean session is switched off for an empty client
/// id; switching it on never panics, which is all this item admits.
#[verifier::external_body]
pub(crate) fn set_clean_session(o: &mut rumqttc::MqttOptions, clean: bool)
    requires
        clean,
    ensures
        options_view(*final(o)) == (OptionsView { clean_session: clean, ..options_view(*old(o)) }),
{
    o.set_clean_session(clean);
}

/// `rumqttc::MqttOptions::set_keep_alive` with a whole number of seconds
/// (`std::time::Duration::from_secs`); it sets that and nothing else, and
/// panics only below one second but above zero, which whole seconds never are.
#[verifier::external_body]
pub(crate) fn set_keep_alive_secs(o: &mut rumqttc::MqttOptions, secs: u64)
    ensures
        options_view(*final(o)) == (OptionsView { keep_alive_secs: secs as nat, ..options_view(*old(o)) }),
{
    o.set_keep_alive(std::time::Duration::from_secs(secs));
}

/// `rumqttc::MqttOptions::set_transport` with `rumqttc::Transport::Ws`; it
/// sets the transport and nothing else.
#[verifier::external_body]
pub(crate) fn set_websocket_transport(o: &mut rumqttc::MqttOptions)
    ensures
        options_view(*final(o)) == (OptionsView { websocket: true, ..options_view(*old(o)) }),
{
    o.set_transport(rumqttc::Transport::Ws);
}

/// `rumqttc::Client::publish`: asks the client to queue a publish request.
/// The request is recorded with whether it was queued. It is refused for a
/// topic with a wildcard, and otherwise when the event loop is gone; the
/// latter is not claimed either way. Both errors display the same text. The
/// call waits while the request queue is full.
#[verifier::external_body]
pub(crate) fn client_publish(client: &mut rumqttc::Client, topic: &str, qos: QoS, retain: bool,
    payload: &str) -> (r: Result<(), String>)
    ensures
        client_requests(*final(client)) == client_requests(*old(client)).push(
            (ClientRequestView::Publish { topic: topic@, qos, retain, payload: payload@ }, r is Ok),
        ),
        !topic_is_valid(topic@) ==> r is Err,
        r matches Err(e) ==> e@ == client_error_text(),
{
    let level = match qos {
        QoS::AtMostOnce => rumqttc::QoS::AtMostOnce,
        QoS::AtLeastOnce => rumqttc::QoS::AtLeastOnce,
        QoS::ExactlyOnce => rumqttc::QoS::ExactlyOnce,
    };
    match client.publish(topic, level, retain, payload.as_bytes()) {
        Ok(()) => Ok(()),
        Err(e) => Err(e.to_string()),
    }
}

/// `rumqttc::Client::subscribe`: asks the client to queue a subscribe request,
/// recorded with whether it was queued; it is refused when the event loop is
/// gone, which is not claimed either way.
#[verifier::external_body]
pub(crate) fn client_subscribe(client: &mut rumqttc::Client, topic: &str, qos: QoS)
    -> (r: Result<(), String>)
    ensures
        client_requests(*final(client)) == client_requests(*old(client)).push(
            (ClientRequestView::Subscribe { topic: topic@, qos }, r is Ok),
        ),
        r matches Err(e) ==> e@ == client_error_text(),
{
    let level = match qos {
        QoS::AtMostOnce => rumqttc::QoS::AtMostOnce,
        QoS::AtLeastOnce => rumqttc::QoS::AtLeastOnce,
        QoS::ExactlyOnce => rumqttc::QoS::ExactlyOnce,
    };
    match client.subscribe(topic, level) {
        Ok(()) => Ok(()),
        Err(e) => Err(e.to_string()),
    }
}

/// `rumqttc::Client::disconnect`: asks the client to queue a disconnect
/// request, recorded with whether it was queued; it is refused when the event
/// loop is gone, which is not claimed either way.
#[verifier::external_body]
pub(crate) fn client_disconnect(client: &mut rumqttc::Client) -> (r: Result<(), String>)
    ensures
        client_requests(*final(client)) == client_requests(*old(client)).push(
            (ClientRequestView::Disconnect, r is Ok),
        ),
        r matches Err(e) ==> e@ == client_error_text(),
{
    match client.disconnect() {
        Ok(()) => Ok(()),
        Err(e) => Err(e.to_string()),
    }
}

} // verus!
