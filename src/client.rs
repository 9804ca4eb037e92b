use vstd::prelude::*;

use crate::model::{ErrorKind, ProtocolError};

verus! {

/// Reconnection attempts made after a lost connection before giving up.
pub const MAX_RECONNECT_ATTEMPTS: u32 = 12;

/// Pause before each reconnection attempt, in milliseconds.
pub const RECONNECT_DELAY_MS: u64 = 5000;

/// Keep-alive interval asked of the broker, in seconds.
pub const KEEP_ALIVE_SECS: u64 = 20;

/// Delivery assurance of every subscription and publication: at least once.
pub const QOS_AT_LEAST_ONCE: i32 = 1;

/// Where a connection to the broker stands.
#[derive(Clone, Copy, Debug, PartialEq, Eq, Structural)]
pub enum ConnState {
    Disconnected,
    Connecting,
    Connected,
    Subscribing,
    Subscribed,
    Reconnecting,
    Failed,
}

/// What the transport reports back to the connection.
#[derive(Clone, Copy, Debug, PartialEq, Eq, Structural)]
pub enum ClientEvent {
    /// Outcome of a connection attempt.
    ConnectResult(bool),
    /// Outcome of subscribing to the configured topics.
    SubscribeResult(bool),
    /// The transport lost an established connection.
    ConnectionLost,
    /// Outcome of one reconnection attempt.
    ReconnectResult(bool),
}

/// Text of the last-will message that the broker publishes when the
/// connection is lost unexpectedly.
pub const WILL_MESSAGE: &'static str = "Lost connection to the MQTT broker";

/// The transport call that the connection asks for next.
#[derive(Clone, Debug, PartialEq, Eq)]
pub enum Action {
    Nothing,
    /// Open the connection with this keep-alive interval, leaving the broker
    /// a last-will message to publish on `will_topic` if it is lost.
    Connect { keep_alive_secs: u64, will_topic: String, will_payload: String, qos: i32 },
    /// Subscribe to every topic of `topics` at delivery level `qos`.
    Subscribe { topics: Vec<String>, qos: i32 },
    /// Send `payload` on `topic` at delivery level `qos`.
    Publish { topic: String, payload: String, qos: i32 },
    /// Release the transport.
    Disconnect,
    /// Wait `delay_ms` milliseconds, then try to reconnect once.
    Reconnect { delay_ms: u64 },
}

/// The characters of each string.
pub open spec fn strings(v: Seq<String>) -> Seq<Seq<char>> {
    v.map_values(|s: String| s@)
}

/// `a` opens a connection with the fixed keep-alive interval and a
/// last-will message on `will_topic`, delivered at least once.
pub open spec fn connect_request(a: Action, will_topic: Seq<char>) -> bool {
    a matches Action::Connect { keep_alive_secs, will_topic: t, will_payload: p, qos }
        && keep_alive_secs == KEEP_ALIVE_SECS && t@ == will_topic && p@ == WILL_MESSAGE@ && qos
        == QOS_AT_LEAST_ONCE
}

/// `a` subscribes to exactly `topics`, each at least once.
pub open spec fn subscribe_request(a: Action, topics: Seq<Seq<char>>) -> bool {
    a matches Action::Subscribe { topics: t, qos } && strings(t@) == topics && qos
        == QOS_AT_LEAST_ONCE
}

/// `a` sends `payload` on `topic` at least once.
pub open spec fn publish_request(a: Action, topic: Seq<char>, payload: Seq<char>) -> bool {
    a matches Action::Publish { topic: t, payload: p, qos } && t@ == topic && p@ == payload && qos
        == QOS_AT_LEAST_ONCE
}

/// `a` waits the fixed reconnection delay, then reconnects once.
pub open spec fn reconnect_request(a: Action) -> bool {
    a matches Action::Reconnect { delay_ms } && delay_ms == RECONNECT_DELAY_MS
}

/// The connection is established, whether or not its subscriptions are.
pub open spec fn is_up(s: ConnState) -> bool {
    s == ConnState::Connected || s == ConnState::Subscribing || s == ConnState::Subscribed
}

/// State and failed reconnection attempts after the transport reports `ev`.
pub open spec fn next(v: (ConnState, nat), ev: ClientEvent) -> (ConnState, nat) {
    match ev {
        ClientEvent::ConnectResult(ok) => {
            if v.0 == ConnState::Connecting {
                if ok {
                    (ConnState::Connected, 0)
                } else {
                    (ConnState::Disconnected, 0)
                }
            } else {
                v
            }
        },
        ClientEvent::SubscribeResult(ok) => {
            if v.0 == ConnState::Subscribing {
                if ok {
                    (ConnState::Subscribed, v.1)
                } else {
                    (ConnState::Disconnected, 0)
                }
            } else {
                v
            }
        },
        ClientEvent::ConnectionLost => {
            if is_up(v.0) {
                (ConnState::Reconnecting, 0)
            } else {
                v
            }
        },
        ClientEvent::ReconnectResult(ok) => {
            if v.0 == ConnState::Reconnecting {
                if ok {
                    (ConnState::Connected, 0)
                } else if v.1 + 1 < MAX_RECONNECT_ATTEMPTS {
                    (ConnState::Reconnecting, v.1 + 1)
                } else {
                    (ConnState::Failed, v.1 + 1)
                }
            } else {
                v
            }
        },
    }
}

/// The report `ev` makes the connection ask for a reconnection attempt.
pub open spec fn asks_reconnect(v: (ConnState, nat), ev: ClientEvent) -> bool {
    ||| ev == ClientEvent::ConnectionLost && is_up(v.0)
    ||| ev == ClientEvent::ReconnectResult(false) && v.0 == ConnState::Reconnecting && v.1 + 1
        < MAX_RECONNECT_ATTEMPTS
}

/// The report `ev` ends in an error of the transport kind.
pub open spec fn fails_on(v: (ConnState, nat), ev: ClientEvent) -> bool {
    ||| ev == ClientEvent::ConnectResult(false) && v.0 == ConnState::Connecting
    ||| ev == ClientEvent::SubscribeResult(false) && v.0 == ConnState::Subscribing
    ||| ev == ClientEvent::ReconnectResult(false) && v.0 == ConnState::Reconnecting && v.1 + 1
        >= MAX_RECONNECT_ATTEMPTS
}

/// The client has no connection to release.
pub open spec fn is_down(s: ConnState) -> bool {
    s == ConnState::Disconnected || s == ConnState::Failed
}

/// State after asking to connect.
pub open spec fn after_connect(v: (ConnState, nat)) -> (ConnState, nat) {
    if is_down(v.0) {
        (ConnState::Connecting, 0)
    } else {
        v
    }
}

/// `a` is the transport call asked for by `connect` in state `v`.
pub open spec fn connect_action(v: (ConnState, nat), a: Action, will_topic: Seq<char>) -> bool {
    if is_down(v.0) {
        connect_request(a, will_topic)
    } else {
        a == Action::Nothing
    }
}

/// `a` is the transport call asked for when `ev` is reported in state `v`.
pub open spec fn event_action(v: (ConnState, nat), ev: ClientEvent, a: Action) -> bool {
    if asks_reconnect(v, ev) {
        reconnect_request(a)
    } else if ev == ClientEvent::SubscribeResult(false) && v.0 == ConnState::Subscribing {
        a == Action::Disconnect
    } else {
        a == Action::Nothing
    }
}

/// State after asking to disconnect: an attempt under way is abandoned.
pub open spec fn after_disconnect(v: (ConnState, nat)) -> (ConnState, nat) {
    if is_down(v.0) {
        v
    } else {
        (ConnState::Disconnected, 0)
    }
}

/// A copy of `v`, string by string.
fn copy_strings(v: &Vec<String>) -> (r: Vec<String>)
    ensures
        strings(r@) == strings(v@),
{
    let mut out: Vec<String> = Vec::new();
    let n = v.len();
    let mut i: usize = 0;
    while i < n
        invariant
            n == v@.len(),
            i <= n,
            strings(out@) == strings(v@).take(i as int),
        decreases n - i,
    {
        let ghost before = out@;
        out.push(v[i].clone());
        proof {
            assert(strings(out@) =~= strings(before).push(v@[i as int]@));
            assert(strings(v@).take(i + 1) =~= strings(v@).take(i as int).push(v@[i as int]@));
        }
        i += 1;
    }
    proof {
        assert(strings(v@).take(n as int) =~= strings(v@));
    }
    out
}

/// State and failed attempts after `n` failed reconnection attempts in a row from `v`.
pub open spec fn after_failures(v: (ConnState, nat), n: nat) -> (ConnState, nat)
    decreases n,
{
    if n == 0 {
        v
    } else {
        next(after_failures(v, (n - 1) as nat), ClientEvent::ReconnectResult(false))
    }
}

/// Reconnection attempts asked for when the connection in state `v` is lost
/// and the first `n` attempts after that fail.
pub open spec fn reconnects_asked(v: (ConnState, nat), n: nat) -> nat
    decreases n,
{
    if n == 0 {
        if asks_reconnect(v, ClientEvent::ConnectionLost) {
            1
        } else {
            0
        }
    } else {
        let before = after_failures(next(v, ClientEvent::ConnectionLost), (n - 1) as nat);
        reconnects_asked(v, (n - 1) as nat) + if asks_reconnect(
            before,
            ClientEvent::ReconnectResult(false),
        ) {
            1nat
        } else {
            0nat
        }
    }
}

/// With a transport on which every reconnection fails, losing an
/// established connection leads to at most `MAX_RECONNECT_ATTEMPTS`
/// attempts: after `n` failures the client still retries while `n` is below
/// the bound, the failure that reaches it is reported as a transport error,
/// and from then on the client stays `Failed` and asks for nothing more.
pub proof fn lemma_reconnection_bound(v: (ConnState, nat), n: nat)
    requires
        is_up(v.0),
    ensures
        n < MAX_RECONNECT_ATTEMPTS ==> after_failures(next(v, ClientEvent::ConnectionLost), n)
            == (ConnState::Reconnecting, n),
        n >= MAX_RECONNECT_ATTEMPTS ==> after_failures(next(v, ClientEvent::ConnectionLost), n)
            == (ConnState::Failed, MAX_RECONNECT_ATTEMPTS as nat),
        reconnects_asked(v, n) == if n < MAX_RECONNECT_ATTEMPTS {
            n + 1
        } else {
            MAX_RECONNECT_ATTEMPTS as nat
        },
        n + 1 == MAX_RECONNECT_ATTEMPTS ==> fails_on(
            after_failures(next(v, ClientEvent::ConnectionLost), n),
            ClientEvent::ReconnectResult(false),
        ),
    decreases n,
{
    if n > 0 {
        lemma_reconnection_bound(v, (n - 1) as nat);
    }
}

/// The connection life cycle of one service: decides which transport call
/// comes next and what each reported outcome means. The transport itself is
/// driven by the caller.
pub struct Client {
    state: ConnState,
    attempts: u32,
}

impl View for Client {
    type V = (ConnState, nat);

    closed spec fn view(&self) -> (ConnState, nat) {
        (self.state, self.attempts as nat)
    }
}

impl Client {
    #[verifier::type_invariant]
    spec fn inv(&self) -> bool {
        &&& self.attempts <= MAX_RECONNECT_ATTEMPTS
        &&& self.state == ConnState::Reconnecting ==> self.attempts < MAX_RECONNECT_ATTEMPTS
    }

    pub fn new() -> (r: Client)
        ensures
            r@ == (ConnState::Disconnected, 0nat),
    {
        Client { state: ConnState::Disconnected, attempts: 0 }
    }

    pub fn state(&self) -> (r: ConnState)
        ensures
            r == self@.0,
    {
        self.state
    }

    /// Failed reconnection attempts since the connection was lost.
    pub fn attempts(&self) -> (r: u32)
        ensures
            r as nat == self@.1,
            r <= MAX_RECONNECT_ATTEMPTS,
    {
        proof {
            use_type_invariant(self);
        }
        self.attempts
    }

    pub fn is_connected(&self) -> (r: bool)
        ensures
            r == is_up(self@.0),
    {
        match self.state {
            ConnState::Connected | ConnState::Subscribing | ConnState::Subscribed => true,
            _ => false,
        }
    }

    /// Asks to open the connection. A no-op while connected or while an
    /// attempt is under way; from `Failed` it is the explicit restart.
    pub fn connect(&mut self, will_topic: &str) -> (r: Action)
        ensures
            final(self)@ == after_connect(old(self)@),
            connect_action(old(self)@, r, will_topic@),
    {
        proof {
            use_type_invariant(&*self);
        }
        match self.state {
            ConnState::Disconnected | ConnState::Failed => {
                *self = Client { state: ConnState::Connecting, attempts: 0 };
                Action::Connect {
                    keep_alive_secs: KEEP_ALIVE_SECS,
                    will_topic: will_topic.to_string(),
                    will_payload: WILL_MESSAGE.to_string(),
                    qos: QOS_AT_LEAST_ONCE,
                }
            },
            _ => Action::Nothing,
        }
    }

    /// Asks to subscribe to the configured topics; only a connected
    /// client can.
    pub fn start_subscriber(&mut self, topics: &Vec<String>) -> (r: Result<Action, ProtocolError>)
        ensures
            old(self)@.0 == ConnState::Connected ==> {
                &&& final(self)@ == (ConnState::Subscribing, old(self)@.1)
                &&& (r matches Ok(a) && subscribe_request(a, strings(topics@)))
            },
            old(self)@.0 == ConnState::Subscribing || old(self)@.0 == ConnState::Subscribed ==> {
                &&& final(self)@ == old(self)@
                &&& r == Ok::<Action, ProtocolError>(Action::Nothing)
            },
            !is_up(old(self)@.0) ==> {
                &&& final(self)@ == old(self)@
                &&& (r matches Err(e) && e.kind == ErrorKind::Mqtt)
            },
    {
        proof {
            use_type_invariant(&*self);
        }
        match self.state {
            ConnState::Connected => {
                *self = Client { state: ConnState::Subscribing, attempts: self.attempts };
                Ok(Action::Subscribe { topics: copy_strings(topics), qos: QOS_AT_LEAST_ONCE })
            },
            ConnState::Subscribing | ConnState::Subscribed => Ok(Action::Nothing),
            _ => Err(ProtocolError::new(ErrorKind::Mqtt, "not connected")),
        }
    }

    /// Asks to publish `payload` on `topic`. Without a connection this
    /// fails and the transport is not touched.
    pub fn send_msg(&self, topic: &str, payload: &str) -> (r: Result<Action, ProtocolError>)
        ensures
            is_up(self@.0) ==> (r matches Ok(a) && publish_request(a, topic@, payload@)),
            !is_up(self@.0) ==> (r matches Err(e) && e.kind == ErrorKind::Mqtt),
    {
        if self.is_connected() {
            Ok(
                Action::Publish {
                    topic: topic.to_string(),
                    payload: payload.to_string(),
                    qos: QOS_AT_LEAST_ONCE,
                },
            )
        } else {
            Err(ProtocolError::new(ErrorKind::Mqtt, "not connected"))
        }
    }

    /// Asks to release the transport. Without an established connection no
    /// transport call is made; an attempt under way is abandoned.
    pub fn disconnect(&mut self) -> (r: Action)
        ensures
            final(self)@ == after_disconnect(old(self)@),
            is_up(old(self)@.0) ==> r == Action::Disconnect,
            !is_up(old(self)@.0) ==> r == Action::Nothing,
    {
        proof {
            use_type_invariant(&*self);
        }
        match self.state {
            ConnState::Disconnected | ConnState::Failed => Action::Nothing,
            ConnState::Connecting | ConnState::Reconnecting => {
                *self = Client { state: ConnState::Disconnected, attempts: 0 };
                Action::Nothing
            },
            _ => {
                *self = Client { state: ConnState::Disconnected, attempts: 0 };
                Action::Disconnect
            },
        }
    }

    /// Takes in what the transport reported. Returns the transport call to
    /// make next and whether the operation that the report concludes failed.
    /// A report that does not fit the current state changes nothing.
    pub fn handle(&mut self, ev: ClientEvent) -> (r: (Action, Result<(), ProtocolError>))
        ensures
            final(self)@ == next(old(self)@, ev),
            event_action(old(self)@, ev, r.0),
            fails_on(old(self)@, ev) ==> (r.1 matches Err(e) && e.kind == ErrorKind::Mqtt),
            !fails_on(old(self)@, ev) ==> r.1 is Ok,
    {
        proof {
            use_type_invariant(&*self);
        }
        match ev {
            ClientEvent::ConnectResult(ok) => {
                if self.state == ConnState::Connecting {
                    if ok {
                        *self = Client { state: ConnState::Connected, attempts: 0 };
                    } else {
                        *self = Client { state: ConnState::Disconnected, attempts: 0 };
                        return (Action::Nothing, Err(ProtocolError::new(ErrorKind::Mqtt, "connection failed")));
                    }
                }
                (Action::Nothing, Ok(()))
            },
            ClientEvent::SubscribeResult(ok) => {
                if self.state == ConnState::Subscribing {
                    if ok {
                        *self = Client { state: ConnState::Subscribed, attempts: self.attempts };
                    } else {
                        *self = Client { state: ConnState::Disconnected, attempts: 0 };
                        return (Action::Disconnect, Err(ProtocolError::new(ErrorKind::Mqtt, "subscription failed")));
                    }
                }
                (Action::Nothing, Ok(()))
            },
            ClientEvent::ConnectionLost => {
                if self.is_connected() {
                    *self = Client { state: ConnState::Reconnecting, attempts: 0 };
                    return (Action::Reconnect { delay_ms: RECONNECT_DELAY_MS }, Ok(()));
                }
                (Action::Nothing, Ok(()))
            },
            ClientEvent::ReconnectResult(ok) => {
                if self.state == ConnState::Reconnecting {
                    if ok {
                        *self = Client { state: ConnState::Connected, attempts: 0 };
                    } else if self.attempts + 1 < MAX_RECONNECT_ATTEMPTS {
                        *self = Client { state: ConnState::Reconnecting, attempts: self.attempts + 1 };
                        return (Action::Reconnect { delay_ms: RECONNECT_DELAY_MS }, Ok(()));
                    } else {
                        *self = Client { state: ConnState::Failed, attempts: self.attempts + 1 };
                        return (Action::Nothing, Err(ProtocolError::new(ErrorKind::Mqtt, "reconnection attempts exhausted")));
                    }
                }
                (Action::Nothing, Ok(()))
            },
        }
    }
}

} // verus!
