//! The hub session: connection state, session identity, the outbound queue,
//! and the routing of inbound frames. Socket I/O is left to the caller: the
//! session says what to send and decides what each received frame means.
use vstd::prelude::*;
use crate::dispatch::{dispatch, inbound_of, Inbound, InboundModel};
use crate::envelope::{
    arg_views, encode, envelope_json, opt_view, Arg, ArgModel, EnvelopeModel, SignalRMessage,
    INVOCATION, PING,
};
use crate::frame::{encode_frame, frames, framed, split_frames, string_views};
use crate::queue::OutboundQueue;

verus! {

/// How many application frames may wait for the writer.
pub const QUEUE_CAPACITY: usize = 100;

/// `s` with every non-overlapping occurrence of a non-empty `from`, found
/// left to right, replaced by `to`.
pub open spec fn replaced(s: Seq<char>, from: Seq<char>, to: Seq<char>) -> Seq<char>
    decreases s.len(),
{
    if from.len() == 0 || s.len() < from.len() {
        s
    } else if s.subrange(0, from.len() as int) == from {
        to + replaced(s.subrange(from.len() as int, s.len() as int), from, to)
    } else {
        seq![s[0]] + replaced(s.drop_first(), from, to)
    }
}

/// Replaces, left to right, every non-overlapping occurrence of `from`.
fn replace_all(s: &str, from: &str, to: &str) -> (r: String)
    requires
        from@.len() > 0,
    ensures
        r@ == replaced(s@, from@, to@),
{
    let n = s.unicode_len();
    let m = from.unicode_len();
    let pattern = String::from_str(from);
    let mut out = String::new();
    let mut i: usize = 0;
    proof {
        assert(s@.subrange(0, n as int) =~= s@);
        assert(Seq::<char>::empty() + replaced(s@, from@, to@) =~= replaced(s@, from@, to@));
    }
    while i < n
        invariant
            n == s@.len(),
            m == from@.len(),
            m > 0,
            i <= n,
            pattern@ == from@,
            out@ + replaced(s@.subrange(i as int, n as int), from@, to@) == replaced(s@, from@, to@),
        decreases n - i,
    {
        let ghost rest = s@.subrange(i as int, n as int);
        let ghost before = out@;
        if n - i >= m && String::from_str(s.substring_char(i, i + m)) == pattern {
            out.append(to);
            proof {
                assert(rest.subrange(0, m as int) =~= s@.subrange(i as int, i + m));
                assert(rest.subrange(m as int, rest.len() as int) =~= s@.subrange(i + m, n as int));
                assert(out@ + replaced(s@.subrange(i + m, n as int), from@, to@)
                    =~= before + replaced(rest, from@, to@));
            }
            i = i + m;
        } else {
            out.append(s.substring_char(i, i + 1));
            proof {
                assert(rest.drop_first() =~= s@.subrange(i + 1, n as int));
                assert(s@.subrange(i as int, i + 1) =~= seq![rest[0]]);
                if rest.len() < m {
                    assert(replaced(rest, from@, to@) == rest);
                    assert(replaced(rest.drop_first(), from@, to@) == rest.drop_first());
                    assert(seq![rest[0]] + rest.drop_first() =~= rest);
                } else {
                    assert(rest.subrange(0, m as int) =~= s@.subrange(i as int, i + m));
                }
                assert(out@ + replaced(s@.subrange(i + 1, n as int), from@, to@)
                    =~= before + replaced(rest, from@, to@));
            }
            i = i + 1;
        }
    }
    proof {
        assert(s@.subrange(n as int, n as int) =~= Seq::<char>::empty());
        assert(out@ + Seq::<char>::empty() =~= out@);
    }
    out
}

/// The url crate's parsed URL, carried through to the socket connector.
#[verifier::external_type_specification]
#[verifier::external_body]
pub struct ExUrl(url::Url);

/// The url crate's parse error; only its presence is read.
#[verifier::external_type_specification]
#[verifier::external_body]
pub struct ExUrlParseError(url::ParseError);

/// Whether the URL parser accepts the text as an absolute URL.
pub uninterp spec fn url_accepts(s: Seq<char>) -> bool;

/// Relies on `url::Url::parse`: whether it succeeds depends on the text alone.
pub assume_specification[ url::Url::parse ](input: &str) -> (r: Result<url::Url, url::ParseError>)
    ensures
        r is Ok == url_accepts(input@),
;

/// The string value of the top-level field `key` of a JSON object text, if
/// the text parses and the field holds a string.
pub uninterp spec fn json_string_field(text: Seq<char>, key: Seq<char>) -> Option<Seq<char>>;

/// Relies on serde_json::from_str into a `Value`, `Value::get(key)` and
/// `Value::as_str`: a lookup of one string field.
#[verifier::external_body]
fn string_field(text: &str, key: &str) -> (r: Option<String>)
    ensures
        opt_view(r) == json_string_field(text@, key@),
{
    serde_json::from_str::<serde_json::Value>(text)
        .ok()
        .and_then(|v| v.get(key).and_then(|e| e.as_str()).map(|e| e.to_string()))
}

#[derive(Debug, Clone, PartialEq, Eq)]
pub enum ConnectionState {
    Disconnected,
    Handshaking,
    Connected,
    Failed(String),
}

pub ghost enum StateModel {
    Disconnected,
    Handshaking,
    Connected,
    Failed(Seq<char>),
}

impl View for ConnectionState {
    type V = StateModel;

    open spec fn view(&self) -> StateModel {
        match self {
            ConnectionState::Disconnected => StateModel::Disconnected,
            ConnectionState::Handshaking => StateModel::Handshaking,
            ConnectionState::Connected => StateModel::Connected,
            ConnectionState::Failed(s) => StateModel::Failed(s@),
        }
    }
}

/// Why a session operation did not go through.
#[derive(Debug, Clone, PartialEq, Eq)]
pub enum ClientError {
    /// The hub rejected the handshake, with its reason.
    HandshakeFailure(String),
    /// The writer failed since the last operation; the session is now disconnected.
    TransportFailure,
    /// No active connection.
    NotConnected,
    /// No room has been joined yet.
    NotJoined,
    /// The outbound queue is full: nothing was queued, wait for the writer and retry.
    QueueFull,
    /// The hub URL does not parse.
    InvalidUrl,
}

pub ghost enum ErrorModel {
    HandshakeFailure(Seq<char>),
    TransportFailure,
    NotConnected,
    NotJoined,
    QueueFull,
    InvalidUrl,
}

impl View for ClientError {
    type V = ErrorModel;

    open spec fn view(&self) -> ErrorModel {
        match self {
            ClientError::HandshakeFailure(s) => ErrorModel::HandshakeFailure(s@),
            ClientError::TransportFailure => ErrorModel::TransportFailure,
            ClientError::NotConnected => ErrorModel::NotConnected,
            ClientError::NotJoined => ErrorModel::NotJoined,
            ClientError::QueueFull => ErrorModel::QueueFull,
            ClientError::InvalidUrl => ErrorModel::InvalidUrl,
        }
    }
}

pub open spec fn result_view(r: Result<(), ClientError>) -> Result<(), ErrorModel> {
    match r {
        Ok(()) => Ok(()),
        Err(e) => Err(e@),
    }
}

/// The handshake request that opens every connection.
pub open spec fn handshake_request_json() -> Seq<char> {
    "{\"protocol\":\"json\",\"version\":1}"@
}

/// The frame body the handshake reply is read from: its first frame, or
/// nothing when the reply holds none.
pub open spec fn handshake_body(reply: Seq<char>) -> Seq<char> {
    if frames(reply).len() > 0 {
        frames(reply)[0]
    } else {
        Seq::empty()
    }
}

/// The outcome of a handshake, given the reply's `error` field.
pub open spec fn handshake_rejected(error: Option<Seq<char>>) -> bool {
    error is Some && error->Some_0.len() > 0
}

pub open spec fn invocation_model(target: Seq<char>, args: Seq<ArgModel>, id: Seq<char>) -> EnvelopeModel {
    EnvelopeModel {
        msg_type: INVOCATION as int,
        target: Some(target),
        arguments: Some(args),
        invocation_id: Some(id),
    }
}

pub open spec fn join_frame(room: Seq<char>, user: Seq<char>) -> Seq<char> {
    framed(envelope_json(invocation_model("JoinSession"@, seq![ArgModel::Text(room), ArgModel::Text(user)], "1"@)))
}

pub open spec fn message_frame(room: Seq<char>, text: Seq<char>, user: Seq<char>) -> Seq<char> {
    framed(envelope_json(invocation_model(
        "SendSignalToSession"@,
        seq![ArgModel::Text(room), ArgModel::Text(text), ArgModel::Text(user)],
        "2"@,
    )))
}

pub open spec fn leave_frame(room: Seq<char>, user: Seq<char>) -> Seq<char> {
    framed(envelope_json(invocation_model("LeaveSession"@, seq![ArgModel::Text(room), ArgModel::Text(user)], "3"@)))
}

pub open spec fn ping_model() -> EnvelopeModel {
    EnvelopeModel { msg_type: PING as int, target: None, arguments: None, invocation_id: None }
}

/// The reply to a ping: `{"type":6}` and a separator.
pub open spec fn pong_frame() -> Seq<char> {
    framed(envelope_json(ping_model()))
}

fn invocation(target: &str, args: Vec<Arg>, id: &str) -> (r: SignalRMessage)
    ensures
        r@ == invocation_model(target@, arg_views(args@), id@),
{
    SignalRMessage {
        msg_type: INVOCATION,
        target: Some(String::from_str(target)),
        arguments: Some(args),
        invocation_id: Some(String::from_str(id)),
    }
}

/// A client of one hub: the connection state, who and where the user is,
/// and the frames waiting for the writer.
pub struct SmaRTCClient {
    hub_url: String,
    username: String,
    room_name: String,
    joined: bool,
    state: ConnectionState,
    write_failed: bool,
    connection_lost: bool,
    outbound: OutboundQueue,
}

pub ghost struct ClientModel {
    pub hub_url: Seq<char>,
    pub username: Seq<char>,
    pub room_name: Seq<char>,
    pub joined: bool,
    pub state: StateModel,
    pub write_failed: bool,
    /// The socket of an established connection closed and no operation has
    /// reported it yet.
    pub lost: bool,
    /// Every waiting frame, in the order the writer takes them.
    pub outbound: Seq<Seq<char>>,
    /// How many of them are application frames (counted against the capacity).
    pub pending: nat,
    /// How many of them, at the front, are keepalive replies.
    pub urgent: nat,
}

impl View for SmaRTCClient {
    type V = ClientModel;

    closed spec fn view(&self) -> ClientModel {
        ClientModel {
            hub_url: self.hub_url@,
            username: self.username@,
            room_name: self.room_name@,
            joined: self.joined,
            state: self.state@,
            write_failed: self.write_failed,
            lost: self.connection_lost,
            outbound: self.outbound@,
            pending: self.outbound.spec_pending(),
            urgent: self.outbound.spec_urgent(),
        }
    }
}

/// Whether an application frame can be queued in this state, and if not,
/// why: a connection lost since the last operation (its socket closed, or
/// its writer failed) is reported as `TransportFailure`; a session that is
/// not connected otherwise gets `NotConnected`.
pub open spec fn gate(c: ClientModel) -> Option<ErrorModel> {
    if c.lost {
        Some(ErrorModel::TransportFailure)
    } else if c.state != StateModel::Connected {
        Some(ErrorModel::NotConnected)
    } else if c.write_failed {
        Some(ErrorModel::TransportFailure)
    } else {
        None
    }
}

/// `b` is the session after `send_message(text)` succeeded on `a`.
pub open spec fn message_sent(a: ClientModel, text: Seq<char>, b: ClientModel) -> bool {
    b == (ClientModel {
        outbound: a.outbound.push(message_frame(a.room_name, text, a.username)),
        pending: a.pending + 1,
        ..a
    })
}

/// The frames of messages `texts` sent to `room` as `user`, in order.
pub open spec fn message_frames(room: Seq<char>, user: Seq<char>, texts: Seq<Seq<char>>) -> Seq<Seq<char>> {
    texts.map_values(|t: Seq<char>| message_frame(room, t, user))
}

/// Messages sent one after another by one caller, each successfully, wait
/// behind the frames queued before them, in the order they were sent, with
/// nothing between them; the writer, taking from the front, sends them in
/// that order.
pub proof fn lemma_sends_in_order(states: Seq<ClientModel>, texts: Seq<Seq<char>>)
    requires
        states.len() == texts.len() + 1,
        forall|k: int| 0 <= k < texts.len() ==> message_sent(#[trigger] states[k], texts[k], states[k + 1]),
    ensures
        states.last().room_name == states[0].room_name,
        states.last().username == states[0].username,
        states.last().outbound == states[0].outbound + message_frames(states[0].room_name, states[0].username, texts),
        states.last().outbound.subrange(states[0].outbound.len() as int, states.last().outbound.len() as int)
            == message_frames(states[0].room_name, states[0].username, texts),
    decreases texts.len(),
{
    let n = texts.len();
    let first = states[0];
    let frames_all = message_frames(first.room_name, first.username, texts);
    if n == 0 {
        assert(frames_all =~= Seq::<Seq<char>>::empty());
        assert(states.last().outbound + frames_all =~= states.last().outbound);
    } else {
        let prev_states = states.drop_last();
        let prev_texts = texts.drop_last();
        assert forall|k: int| 0 <= k < prev_texts.len() implies message_sent(
            #[trigger] prev_states[k],
            prev_texts[k],
            prev_states[k + 1],
        ) by {
            assert(message_sent(states[k], texts[k], states[k + 1]));
        }
        lemma_sends_in_order(prev_states, prev_texts);
        let mid = prev_states.last();
        assert(mid == states[n - 1]);
        assert(prev_states[0] == first);
        assert(message_sent(states[n - 1], texts[n - 1], states[n as int]));
        let frames_prev = message_frames(first.room_name, first.username, prev_texts);
        assert(frames_all =~= frames_prev.push(message_frame(first.room_name, texts[n - 1], first.username)));
        assert(states.last().outbound =~= first.outbound + frames_all);
    }
    assert(states.last().outbound.subrange(first.outbound.len() as int, states.last().outbound.len() as int)
        =~= frames_all);
}

/// The session after a lost connection has been reported: disconnected,
/// with nothing left to report.
pub open spec fn after_transport_failure(c: ClientModel) -> ClientModel {
    ClientModel { state: StateModel::Disconnected, write_failed: false, lost: false, ..c }
}

/// The session with its identity set to `room` and `user`.
pub open spec fn with_identity(c: ClientModel, room: Seq<char>, user: Seq<char>) -> ClientModel {
    ClientModel { username: user, room_name: room, ..c }
}

impl SmaRTCClient {
    pub closed spec fn wf(&self) -> bool {
        &&& self.outbound.wf()
        &&& self.outbound.spec_capacity() == QUEUE_CAPACITY
        &&& self@.pending <= QUEUE_CAPACITY
        &&& self@.urgent + self@.pending == self@.outbound.len()
    }

    /// What a well-formed client keeps true of its queue: at most
    /// `QUEUE_CAPACITY` application frames, behind the keepalive replies.
    pub proof fn lemma_wf(&self)
        requires
            self.wf(),
        ensures
            self@.pending <= QUEUE_CAPACITY,
            self@.urgent + self@.pending == self@.outbound.len(),
    {
    }

    /// A disconnected client of the hub at `hub_url`, with no identity yet.
    pub fn new(hub_url: &str) -> (r: Self)
        ensures
            r.wf(),
            r@.hub_url == hub_url@,
            r@.username == Seq::<char>::empty(),
            r@.room_name == Seq::<char>::empty(),
            !r@.joined,
            r@.state == StateModel::Disconnected,
            !r@.write_failed,
            !r@.lost,
            r@.outbound == Seq::<Seq<char>>::empty(),
            r@.pending == 0,
            r@.urgent == 0,
    {
        SmaRTCClient {
            hub_url: String::from_str(hub_url),
            username: String::new(),
            room_name: String::new(),
            joined: false,
            state: ConnectionState::Disconnected,
            write_failed: false,
            connection_lost: false,
            outbound: OutboundQueue::new(QUEUE_CAPACITY),
        }
    }

    /// The socket address of the hub: `http://` becomes `ws://`, then
    /// `https://` becomes `wss://`.
    pub fn ws_url(&self) -> (r: String)
        ensures
            r@ == replaced(replaced(self@.hub_url, "http://"@, "ws://"@), "https://"@, "wss://"@),
    {
        proof {
            reveal_strlit("http://");
            reveal_strlit("https://");
        }
        let plain = replace_all(self.hub_url.as_str(), "http://", "ws://");
        replace_all(plain.as_str(), "https://", "wss://")
    }

    /// The parsed socket address to connect to.
    pub fn connect_target(&self) -> (r: Result<url::Url, ClientError>)
        ensures
            r is Ok == url_accepts(replaced(replaced(self@.hub_url, "http://"@, "ws://"@), "https://"@, "wss://"@)),
            r is Err ==> r->Err_0@ == ErrorModel::InvalidUrl,
    {
        let ws = self.ws_url();
        match url::Url::parse(ws.as_str()) {
            Ok(u) => Ok(u),
            Err(_) => Err(ClientError::InvalidUrl),
        }
    }

    /// Starts a connection attempt on a freshly opened socket: the state
    /// becomes `Handshaking`, frames of an earlier connection are dropped, and
    /// the handshake request frame to send is returned.
    pub fn begin_handshake(&mut self) -> (r: String)
        requires
            old(self).wf(),
        ensures
            final(self).wf(),
            r@ == framed(handshake_request_json()),
            final(self)@.state == StateModel::Handshaking,
            !final(self)@.write_failed,
            !final(self)@.lost,
            final(self)@.outbound == Seq::<Seq<char>>::empty(),
            final(self)@.pending == 0,
            final(self)@.urgent == 0,
            final(self)@.hub_url == old(self)@.hub_url,
            final(self)@.username == old(self)@.username,
            final(self)@.room_name == old(self)@.room_name,
            final(self)@.joined == old(self)@.joined,
    {
        self.state = ConnectionState::Handshaking;
        self.write_failed = false;
        self.connection_lost = false;
        self.outbound.clear();
        encode_frame("{\"protocol\":\"json\",\"version\":1}")
    }

    /// Applies the `error` field of the handshake reply: a non-empty one is a
    /// rejection (state `Failed` with that reason), anything else completes
    /// the connection. Outside a handshake nothing changes.
    pub fn complete_handshake(&mut self, error: Option<String>) -> (r: Result<(), ClientError>)
        requires
            old(self).wf(),
        ensures
            final(self).wf(),
            old(self)@.state != StateModel::Handshaking ==> {
                &&& result_view(r) == Err::<(), ErrorModel>(ErrorModel::NotConnected)
                &&& final(self)@ == old(self)@
            },
            old(self)@.state == StateModel::Handshaking ==> {
                &&& handshake_rejected(opt_view(error)) ==> {
                    &&& result_view(r) == Err::<(), ErrorModel>(ErrorModel::HandshakeFailure(opt_view(error)->Some_0))
                    &&& final(self)@ == (ClientModel { state: StateModel::Failed(opt_view(error)->Some_0), ..old(self)@ })
                }
                &&& !handshake_rejected(opt_view(error)) ==> {
                    &&& r is Ok
                    &&& final(self)@ == (ClientModel { state: StateModel::Connected, ..old(self)@ })
                }
            },
    {
        match self.state {
            ConnectionState::Handshaking => {},
            _ => {
                return Err(ClientError::NotConnected);
            },
        }
        match error {
            Some(e) => {
                if e.unicode_len() > 0 {
                    self.state = ConnectionState::Failed(e.clone());
                    return Err(ClientError::HandshakeFailure(e));
                }
            },
            None => {},
        }
        self.state = ConnectionState::Connected;
        Ok(())
    }

    /// Reads the hub's handshake reply (its first frame) and completes or
    /// rejects the connection accordingly.
    pub fn finish_handshake(&mut self, reply: &str) -> (r: Result<(), ClientError>)
        requires
            old(self).wf(),
        ensures
            final(self).wf(),
            old(self)@.state != StateModel::Handshaking ==> {
                &&& result_view(r) == Err::<(), ErrorModel>(ErrorModel::NotConnected)
                &&& final(self)@ == old(self)@
            },
            old(self)@.state == StateModel::Handshaking ==> {
                let error = json_string_field(handshake_body(reply@), "error"@);
                &&& handshake_rejected(error) ==> {
                    &&& result_view(r) == Err::<(), ErrorModel>(ErrorModel::HandshakeFailure(error->Some_0))
                    &&& final(self)@ == (ClientModel { state: StateModel::Failed(error->Some_0), ..old(self)@ })
                }
                &&& !handshake_rejected(error) ==> {
                    &&& r is Ok
                    &&& final(self)@ == (ClientModel { state: StateModel::Connected, ..old(self)@ })
                }
            },
    {
        let parts = split_frames(reply);
        let error = if parts.len() > 0 {
            string_field(parts[0].as_str(), "error")
        } else {
            string_field("", "error")
        };
        proof {
            if parts.len() > 0 {
                assert(string_views(parts@)[0] == parts@[0]@);
            } else {
                assert(""@ =~= Seq::<char>::empty()) by {
                    reveal_strlit("");
                }
            }
        }
        self.complete_handshake(error)
    }

    /// Checks that an application frame may be queued. A lost connection
    /// seen here is reported once, as `TransportFailure`, and leaves the
    /// session disconnected so that later calls get `NotConnected`.
    fn check_gate(&mut self) -> (r: Result<(), ClientError>)
        requires
            old(self).wf(),
        ensures
            final(self).wf(),
            gate(old(self)@) is None ==> r is Ok && final(self)@ == old(self)@,
            gate(old(self)@) == Some(ErrorModel::NotConnected) ==> result_view(r) == Err::<(), ErrorModel>(ErrorModel::NotConnected)
                && final(self)@ == old(self)@,
            gate(old(self)@) == Some(ErrorModel::TransportFailure) ==> result_view(r) == Err::<(), ErrorModel>(ErrorModel::TransportFailure)
                && final(self)@ == after_transport_failure(old(self)@),
    {
        if self.connection_lost {
            self.state = ConnectionState::Disconnected;
            self.write_failed = false;
            self.connection_lost = false;
            return Err(ClientError::TransportFailure);
        }
        match self.state {
            ConnectionState::Connected => {},
            _ => {
                return Err(ClientError::NotConnected);
            },
        }
        if self.write_failed {
            self.state = ConnectionState::Disconnected;
            self.write_failed = false;
            return Err(ClientError::TransportFailure);
        }
        Ok(())
    }

    /// Queues an encoded application frame behind the waiting ones.
    fn enqueue(&mut self, frame: String) -> (r: Result<(), ClientError>)
        requires
            old(self).wf(),
        ensures
            final(self).wf(),
            old(self)@.pending < QUEUE_CAPACITY ==> r is Ok && final(self)@ == (ClientModel {
                outbound: old(self)@.outbound.push(frame@),
                pending: old(self)@.pending + 1,
                ..old(self)@
            }),
            old(self)@.pending == QUEUE_CAPACITY ==> result_view(r) == Err::<(), ErrorModel>(ErrorModel::QueueFull)
                && final(self)@ == old(self)@,
    {
        proof {
            self.outbound.lemma_counts();
        }
        match self.outbound.push(frame) {
            Ok(()) => {
                proof {
                    self.outbound.lemma_counts();
                }
                Ok(())
            },
            Err(_) => Err(ClientError::QueueFull),
        }
    }

    /// Joins `room` as `user`: records the identity, then queues a
    /// `JoinSession(room, user)` invocation. The session counts as joined
    /// only once that invocation is queued.
    pub fn join_room(&mut self, room: &str, user: &str) -> (r: Result<(), ClientError>)
        requires
            old(self).wf(),
        ensures
            final(self).wf(),
            gate(old(self)@) == Some(ErrorModel::NotConnected) ==> result_view(r) == Err::<(), ErrorModel>(ErrorModel::NotConnected)
                && final(self)@ == with_identity(old(self)@, room@, user@),
            gate(old(self)@) == Some(ErrorModel::TransportFailure) ==> result_view(r) == Err::<(), ErrorModel>(ErrorModel::TransportFailure)
                && final(self)@ == with_identity(after_transport_failure(old(self)@), room@, user@),
            gate(old(self)@) is None && old(self)@.pending == QUEUE_CAPACITY ==> result_view(r) == Err::<(), ErrorModel>(ErrorModel::QueueFull)
                && final(self)@ == with_identity(old(self)@, room@, user@),
            gate(old(self)@) is None && old(self)@.pending < QUEUE_CAPACITY ==> r is Ok
                && final(self)@ == (ClientModel {
                    joined: true,
                    outbound: old(self)@.outbound.push(join_frame(room@, user@)),
                    pending: old(self)@.pending + 1,
                    ..with_identity(old(self)@, room@, user@)
                }),
    {
        self.username = String::from_str(user);
        self.room_name = String::from_str(room);
        self.check_gate()?;
        let args = vec![Arg::Text(String::from_str(room)), Arg::Text(String::from_str(user))];
        proof {
            assert(arg_views(args@) =~= seq![ArgModel::Text(room@), ArgModel::Text(user@)]);
        }
        let m = invocation("JoinSession", args, "1");
        let frame = encode(&m);
        self.enqueue(frame)?;
        self.joined = true;
        Ok(())
    }

    /// Sends `text` to the joined room, as a
    /// `SendSignalToSession(room, text, user)` invocation.
    pub fn send_message(&mut self, text: &str) -> (r: Result<(), ClientError>)
        requires
            old(self).wf(),
        ensures
            final(self).wf(),
            gate(old(self)@) == Some(ErrorModel::NotConnected) ==> result_view(r) == Err::<(), ErrorModel>(ErrorModel::NotConnected)
                && final(self)@ == old(self)@,
            gate(old(self)@) == Some(ErrorModel::TransportFailure) ==> result_view(r) == Err::<(), ErrorModel>(ErrorModel::TransportFailure)
                && final(self)@ == after_transport_failure(old(self)@),
            gate(old(self)@) is None && !old(self)@.joined ==> result_view(r) == Err::<(), ErrorModel>(ErrorModel::NotJoined)
                && final(self)@ == old(self)@,
            gate(old(self)@) is None && old(self)@.joined && old(self)@.pending == QUEUE_CAPACITY
                ==> result_view(r) == Err::<(), ErrorModel>(ErrorModel::QueueFull) && final(self)@ == old(self)@,
            gate(old(self)@) is None && old(self)@.joined && old(self)@.pending < QUEUE_CAPACITY ==> r is Ok
                && message_sent(old(self)@, text@, final(self)@),
    {
        self.check_gate()?;
        if !self.joined {
            return Err(ClientError::NotJoined);
        }
        let args = vec![
            Arg::Text(self.room_name.clone()),
            Arg::Text(String::from_str(text)),
            Arg::Text(self.username.clone()),
        ];
        proof {
            assert(arg_views(args@) =~= seq![
                ArgModel::Text(self@.room_name),
                ArgModel::Text(text@),
                ArgModel::Text(self@.username),
            ]);
        }
        let m = invocation("SendSignalToSession", args, "2");
        let frame = encode(&m);
        self.enqueue(frame)
    }

    /// Leaves the session: when a room was joined, queues a
    /// `LeaveSession(room, user)` invocation; then the session is
    /// disconnected. Frames already queued, the leave among them, stay for the
    /// writer to drain before the socket is closed.
    pub fn leave_room(&mut self) -> (r: Result<(), ClientError>)
        requires
            old(self).wf(),
        ensures
            final(self).wf(),
            gate(old(self)@) == Some(ErrorModel::NotConnected) ==> result_view(r) == Err::<(), ErrorModel>(ErrorModel::NotConnected)
                && final(self)@ == old(self)@,
            gate(old(self)@) == Some(ErrorModel::TransportFailure) ==> result_view(r) == Err::<(), ErrorModel>(ErrorModel::TransportFailure)
                && final(self)@ == after_transport_failure(old(self)@),
            gate(old(self)@) is None && old(self)@.joined && old(self)@.pending == QUEUE_CAPACITY
                ==> result_view(r) == Err::<(), ErrorModel>(ErrorModel::QueueFull) && final(self)@ == old(self)@,
            gate(old(self)@) is None && old(self)@.joined && old(self)@.pending < QUEUE_CAPACITY ==> r is Ok
                && final(self)@ == (ClientModel {
                    state: StateModel::Disconnected,
                    outbound: old(self)@.outbound.push(leave_frame(old(self)@.room_name, old(self)@.username)),
                    pending: old(self)@.pending + 1,
                    ..old(self)@
                }),
            gate(old(self)@) is None && !old(self)@.joined ==> r is Ok
                && final(self)@ == (ClientModel { state: StateModel::Disconnected, ..old(self)@ }),
    {
        self.check_gate()?;
        if self.joined {
            let args = vec![Arg::Text(self.room_name.clone()), Arg::Text(self.username.clone())];
            proof {
                assert(arg_views(args@) =~= seq![ArgModel::Text(self@.room_name), ArgModel::Text(self@.username)]);
            }
            let m = invocation("LeaveSession", args, "3");
            let frame = encode(&m);
            self.enqueue(frame)?;
        }
        self.state = ConnectionState::Disconnected;
        Ok(())
    }

    /// Routes one decoded inbound envelope. A ping gets exactly one reply,
    /// queued ahead of every application frame already waiting.
    pub fn handle_inbound(&mut self, m: &SignalRMessage) -> (r: Inbound)
        requires
            old(self).wf(),
        ensures
            final(self).wf(),
            r@ == inbound_of(m@, old(self)@.username),
            r@ == InboundModel::Ping ==> final(self)@ == (ClientModel {
                outbound: old(self)@.outbound.subrange(0, old(self)@.urgent as int).push(pong_frame())
                    + old(self)@.outbound.subrange(old(self)@.urgent as int, old(self)@.outbound.len() as int),
                urgent: old(self)@.urgent + 1,
                ..old(self)@
            }),
            r@ != InboundModel::Ping ==> final(self)@ == old(self)@,
    {
        let r = dispatch(m, &self.username);
        match r {
            Inbound::Ping => {
                let pong = SignalRMessage { msg_type: PING, target: None, arguments: None, invocation_id: None };
                let frame = encode(&pong);
                proof {
                    self.outbound.lemma_counts();
                }
                self.outbound.push_urgent(frame);
                proof {
                    self.outbound.lemma_counts();
                }
            },
            _ => {},
        }
        r
    }

    /// Hands the writer the next frame to send, if any.
    pub fn next_frame(&mut self) -> (r: Option<String>)
        requires
            old(self).wf(),
        ensures
            final(self).wf(),
            old(self)@.outbound.len() == 0 ==> r is None && final(self)@ == old(self)@,
            old(self)@.outbound.len() > 0 ==> r is Some && r->Some_0@ == old(self)@.outbound[0]
                && final(self)@.outbound == old(self)@.outbound.drop_first()
                && final(self)@.hub_url == old(self)@.hub_url
                && final(self)@.username == old(self)@.username
                && final(self)@.room_name == old(self)@.room_name
                && final(self)@.joined == old(self)@.joined
                && final(self)@.state == old(self)@.state
                && final(self)@.write_failed == old(self)@.write_failed,
            old(self)@.urgent > 0 ==> final(self)@.urgent == old(self)@.urgent - 1
                && final(self)@.pending == old(self)@.pending,
            old(self)@.urgent == 0 && old(self)@.pending > 0 ==> final(self)@.urgent == 0
                && final(self)@.pending == old(self)@.pending - 1,
    {
        proof {
            self.outbound.lemma_counts();
        }
        let r = self.outbound.pop();
        proof {
            self.outbound.lemma_counts();
        }
        r
    }

    /// Records that the writer failed: the next operation reports it.
    pub fn mark_write_failed(&mut self)
        requires
            old(self).wf(),
        ensures
            final(self).wf(),
            final(self)@ == (ClientModel { write_failed: true, ..old(self)@ }),
    {
        self.write_failed = true;
    }

    /// Records that the socket closed: the session is disconnected and the
    /// frames still waiting are dropped, as nothing can carry them. When the
    /// connection was established (not ended by `leave_room`), the loss is
    /// kept for the next operation to report as `TransportFailure`.
    pub fn mark_closed(&mut self)
        requires
            old(self).wf(),
        ensures
            final(self).wf(),
            final(self)@ == (ClientModel {
                state: StateModel::Disconnected,
                write_failed: false,
                lost: old(self)@.lost || old(self)@.state == StateModel::Connected,
                outbound: Seq::empty(),
                pending: 0,
                urgent: 0,
                ..old(self)@
            }),
    {
        match self.state {
            ConnectionState::Connected => {
                self.connection_lost = true;
            },
            _ => {},
        }
        self.state = ConnectionState::Disconnected;
        self.write_failed = false;
        self.outbound.clear();
    }

    pub fn get_username(&self) -> (r: String)
        ensures
            r@ == self@.username,
    {
        self.username.clone()
    }

    pub fn get_room(&self) -> (r: String)
        ensures
            r@ == self@.room_name,
    {
        self.room_name.clone()
    }

    pub fn is_connected(&self) -> (r: bool)
        ensures
            r == (self@.state == StateModel::Connected),
    {
        match self.state {
            ConnectionState::Connected => true,
            _ => false,
        }
    }

    pub fn state(&self) -> (r: &ConnectionState)
        ensures
            r@ == self@.state,
    {
        &self.state
    }
}

} // verus!
