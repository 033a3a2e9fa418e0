//! The streaming protocol client, as a state machine. The caller owns the connection: it
//! sends the messages that the client hands out and hands back the replies it reads.
//!
//! The handshake runs setup, authorisation, then (once) the opening of the feed channel.
//! Each event type's field list is declared to the feed the first time it is subscribed, and
//! incoming compact data frames are split by event type using those field lists.
use vstd::prelude::*;

use crate::decimal::{parse_outcome, Decimal, DecimalError};
use crate::messages::{
    auth_message, auth_text, channel_request_message, feed_setup_message, feed_setup_text,
    keepalive_message, keepalive_text, setup_message, setup_text, subscription_message,
    subscription_text, subscription_texts, chunk, chunk_count, MAX_SUBSCRIPTION_SIZE,
};
use crate::registry::{position_of, schema_of, SchemaRegistry};
use crate::text::{copy_strings, same_text, texts};

verus! {

/// One value of a data frame.
#[derive(Clone, Debug)]
pub enum FeedValue {
    Null,
    Bool(bool),
    /// A number, as the feed wrote it.
    Number(String),
    Text(String),
    /// An array or an object.
    Other,
}

impl FeedValue {
    fn copy(&self) -> (r: FeedValue)
        ensures
            r == *self,
    {
        match self {
            FeedValue::Null => FeedValue::Null,
            FeedValue::Bool(b) => FeedValue::Bool(*b),
            FeedValue::Number(t) => FeedValue::Number(t.clone()),
            FeedValue::Text(t) => FeedValue::Text(t.clone()),
            FeedValue::Other => FeedValue::Other,
        }
    }

    /// The value as a price. A number with at most four fractional digits is a price; one
    /// that the decimal codec refuses is an error naming the offending text. Anything else,
    /// the text `"NaN"` among them, is no price.
    pub fn to_price(&self) -> (r: Result<Option<Decimal>, DecimalError>)
        ensures
            match *self {
                FeedValue::Number(t) => match parse_outcome(t@) {
                    Ok(v) => r matches Ok(Some(d)) && d@ == v,
                    Err((kind, text)) => r matches Err(e) && e.kind == kind && e.text@ == text,
                },
                _ => r matches Ok(None),
            },
    {
        match self {
            FeedValue::Number(t) => match Decimal::parse(t.as_str()) {
                Ok(d) => Ok(Some(d)),
                Err(e) => Err(e),
            },
            _ => Ok(None),
        }
    }
}

/// The price of a symbol.
#[derive(Clone, Debug)]
pub struct Price {
    pub symbol: String,
    pub price: Decimal,
}

/// The `data` member of an incoming message: an event type and its flat value sequence.
#[derive(Clone, Debug)]
pub struct FeedFrame {
    pub event_type: Option<String>,
    pub values: Option<Vec<FeedValue>>,
}

/// An incoming message, reduced to the members the protocol reads. An unreadable message has
/// none of them.
#[derive(Clone, Debug)]
pub struct Incoming {
    pub message_type: Option<String>,
    pub state: Option<String>,
    pub channel: Option<i32>,
    pub data: Option<FeedFrame>,
}

/// The event type and values of a well-formed data frame.
pub open spec fn frame_of(m: Incoming) -> Option<(Seq<char>, Seq<FeedValue>)> {
    match m.data {
        Some(f) => match (f.event_type, f.values) {
            (Some(name), Some(vals)) => Some((name@, vals@)),
            _ => None,
        },
        None => None,
    }
}

/// The message's `type` member is `t`.
pub open spec fn has_type(m: Incoming, t: Seq<char>) -> bool {
    m.message_type matches Some(x) && x@ == t
}

/// The values at `i`, `i + n`, `i + 2n`, ... : the first `count` rows of one column.
pub open spec fn column(values: Seq<FeedValue>, i: int, n: int, count: int) -> Seq<FeedValue> {
    Seq::new(count as nat, |k: int| values[i + k * n])
}

/// The values received for one event type, with its field list.
pub struct SubscriptionData {
    event_type: String,
    fields: Vec<String>,
    values: Vec<FeedValue>,
}

impl View for SubscriptionData {
    type V = (Seq<char>, Seq<Seq<char>>, Seq<FeedValue>);

    closed spec fn view(&self) -> (Seq<char>, Seq<Seq<char>>, Seq<FeedValue>) {
        (self.event_type@, texts(self.fields@), self.values@)
    }
}

impl SubscriptionData {
    pub fn event_type(&self) -> (r: &String)
        ensures
            r@ == self@.0,
    {
        &self.event_type
    }

    pub fn fields(&self) -> (r: &Vec<String>)
        ensures
            texts(r@) == self@.1,
    {
        &self.fields
    }

    /// The flat value sequence, row after row.
    pub fn values(&self) -> (r: &Vec<FeedValue>)
        ensures
            r@ == self@.2,
    {
        &self.values
    }

    /// The column of `field`: the value at the field's position in each row. `None` when the
    /// field is not in the field list.
    pub fn iter_field(&self, field: &str) -> (r: Option<Vec<FeedValue>>)
        ensures
            match r {
                Some(col) => position_of(self@.1, field@) matches Some(i) && col@ == column(
                    self@.2,
                    i,
                    self@.1.len() as int,
                    col.len() as int,
                ) && i + col.len() * self@.1.len() >= self@.2.len() && (col.len() == 0 || i + (
                col.len() - 1) * self@.1.len() < self@.2.len()),
                None => position_of(self@.1, field@) is None,
            },
    {
        let i = match crate::registry::find_field(&self.fields, field) {
            Some(i) => i,
            None => {
                return None;
            },
        };
        proof {
            let fs = texts(self.fields@);
            let k = choose|k: int| crate::registry::first_position(fs, field@, k);
            assert(crate::registry::first_position(fs, field@, k));
        }
        let n = self.fields.len();
        let mut col: Vec<FeedValue> = Vec::new();
        assert(col@ =~= column(self.values@, i as int, n as int, 0));
        if i >= self.values.len() {
            return Some(col);
        }
        let mut p: usize = i;
        let mut done = false;
        assert(col.len() * n == 0) by (nonlinear_arith)
            requires
                col.len() == 0,
        ;
        while !done && p < self.values.len()
            invariant
                i < n == self.fields.len(),
                position_of(texts(self.fields@), field@) == Some(i as int),
                !done ==> p == i + col.len() * n,
                done ==> i + col.len() * n >= self.values.len(),
                col@ == column(self.values@, i as int, n as int, col.len() as int),
                col.len() == 0 || i + (col.len() - 1) * n < self.values.len(),
            decreases self.values.len() - p + if done {
                0int
            } else {
                1int
            },
        {
            let ghost before = col@;
            assert(i + before.len() * n == p);
            col.push(self.values[p].copy());
            assert(col@ =~= column(self.values@, i as int, n as int, col.len() as int));
            assert(p + n == i + col.len() * n) by (nonlinear_arith)
                requires
                    p == i + (col.len() - 1) * n,
            ;
            if self.values.len() - p <= n {
                done = true;
            } else {
                p = p + n;
            }
        }
        Some(col)
    }
}

/// Where the client stands in the handshake.
#[derive(Clone, Copy, Debug, PartialEq, Eq, Structural)]
pub enum Phase {
    Disconnected,
    /// The transport is open and the setup message sent; its reply is awaited.
    AwaitingSetup,
    /// The setup was acknowledged and the token sent; the verdict is awaited.
    AwaitingAuth,
    Authorized,
    /// The feed channel was requested; its opening is awaited.
    AwaitingChannel,
    Failed,
}

/// The handshake step whose reply could not be read.
#[derive(Clone, Copy, Debug, PartialEq, Eq, Structural)]
pub enum HandshakeStep {
    Setup,
    Auth,
    ChannelOpen,
}

/// What can go wrong in the protocol.
#[derive(Clone, Debug)]
pub enum StreamError {
    /// The client is not authorized on an open connection.
    ConnectionNotEstablished,
    /// A handshake step was taken in the wrong phase, or the channel is not open yet.
    OutOfOrder,
    /// A handshake reply of the wrong type, or unreadable.
    HandshakeDecodeFailure(HandshakeStep),
    /// The feed did not authorize the token.
    AuthenticationRejected,
    /// A data frame for an event type whose fields were never declared.
    MissingSchema(String),
}

/// What the client knows: its phase, the feed channel once opened, the declared field lists,
/// the token and the feed's address.
pub struct ClientView {
    pub phase: Phase,
    pub channel: Option<i32>,
    pub schemas: Seq<(Seq<char>, Seq<Seq<char>>)>,
    pub token: Seq<char>,
    pub url: Seq<char>,
}

/// The client's state and its decisions; the caller does the input and output.
pub struct Client {
    base_url: String,
    token: String,
    phase: Phase,
    feed_channel: Option<i32>,
    subscription_fields: SchemaRegistry,
}

impl View for Client {
    type V = ClientView;

    closed spec fn view(&self) -> ClientView {
        ClientView {
            phase: self.phase,
            channel: self.feed_channel,
            schemas: self.subscription_fields@,
            token: self.token@,
            url: self.base_url@,
        }
    }
}

/// The messages that `add_subscription` hands out: the field declaration when the event type
/// is new, then one subscription message per chunk of symbols.
pub open spec fn subscribe_texts(
    channel: int,
    schemas: Seq<(Seq<char>, Seq<Seq<char>>)>,
    name: Seq<char>,
    fields: Seq<Seq<char>>,
    symbols: Seq<Seq<char>>,
) -> Seq<Seq<char>> {
    if schema_of(schemas, name) is None {
        seq![feed_setup_text(channel, name, fields)] + subscription_texts(channel, name, symbols)
    } else {
        subscription_texts(channel, name, symbols)
    }
}

/// The series accumulated so far for each event type, in order of first appearance.
pub open spec fn series_views(r: Seq<SubscriptionData>) -> Seq<
    (Seq<char>, Seq<Seq<char>>, Seq<FeedValue>),
> {
    r.map_values(|d: SubscriptionData| d@)
}

/// The last series of event type `name`, or -1.
pub open spec fn series_index(acc: Seq<(Seq<char>, Seq<Seq<char>>, Seq<FeedValue>)>, name: Seq<char>) -> int
    decreases acc.len(),
{
    if acc.len() == 0 {
        -1
    } else if acc.last().0 == name {
        acc.len() - 1
    } else {
        series_index(acc.drop_last(), name)
    }
}

/// `vals` appended to the series of `name`, which starts with field list `fields` if new.
pub open spec fn add_frame(
    acc: Seq<(Seq<char>, Seq<Seq<char>>, Seq<FeedValue>)>,
    name: Seq<char>,
    fields: Seq<Seq<char>>,
    vals: Seq<FeedValue>,
) -> Seq<(Seq<char>, Seq<Seq<char>>, Seq<FeedValue>)> {
    let k = series_index(acc, name);
    if k >= 0 {
        acc.update(k, (acc[k].0, acc[k].1, acc[k].2 + vals))
    } else {
        acc.push((name, fields, vals))
    }
}

/// The data frames among `msgs` split by event type, other messages skipped; or the first
/// event type that has no declared field list.
pub open spec fn demux(schemas: Seq<(Seq<char>, Seq<Seq<char>>)>, msgs: Seq<Incoming>) -> Result<
    Seq<(Seq<char>, Seq<Seq<char>>, Seq<FeedValue>)>,
    Seq<char>,
>
    decreases msgs.len(),
{
    if msgs.len() == 0 {
        Ok(Seq::empty())
    } else {
        match demux(schemas, msgs.drop_last()) {
            Err(e) => Err(e),
            Ok(acc) => match frame_of(msgs.last()) {
                None => Ok(acc),
                Some((name, vals)) => match schema_of(schemas, name) {
                    None => Err(name),
                    Some(fs) => Ok(add_frame(acc, name, fs, vals)),
                },
            },
        }
    }
}

/// What one poll hands out: the data received, and the keepalive message to send.
pub struct PollResult {
    pub data: Vec<SubscriptionData>,
    pub keepalive: String,
}

fn copy_values(v: &Vec<FeedValue>) -> (r: Vec<FeedValue>)
    ensures
        r@ == v@,
{
    let mut r: Vec<FeedValue> = Vec::new();
    let mut i: usize = 0;
    while i < v.len()
        invariant
            i <= v.len(),
            r@ == v@.take(i as int),
        decreases v.len() - i,
    {
        r.push(v[i].copy());
        i = i + 1;
        assert(r@ =~= v@.take(i as int));
    }
    assert(v@.take(v.len() as int) =~= v@);
    r
}

/// Where the series of `name` is, searching from the end.
fn find_series(acc: &Vec<SubscriptionData>, name: &str) -> (r: Option<usize>)
    ensures
        match r {
            Some(k) => k < acc.len() && series_index(series_views(acc@), name@) == k,
            None => series_index(series_views(acc@), name@) == -1,
        },
{
    let ghost all = series_views(acc@);
    let mut i: usize = acc.len();
    assert(all.take(i as int) =~= all);
    while i > 0
        invariant
            i <= acc.len(),
            all == series_views(acc@),
            series_index(all, name@) == series_index(all.take(i as int), name@),
        decreases i,
    {
        let ghost pre = all.take(i as int);
        assert(pre.drop_last() =~= all.take(i - 1));
        assert(pre.last() == acc@[i - 1]@);
        if same_text(&acc[i - 1].event_type, name) {
            return Some(i - 1);
        }
        i = i - 1;
    }
    assert(all.take(0) =~= Seq::<(Seq<char>, Seq<Seq<char>>, Seq<FeedValue>)>::empty());
    None
}

proof fn lemma_demux_err_extends(
    schemas: Seq<(Seq<char>, Seq<Seq<char>>)>,
    msgs: Seq<Incoming>,
    i: int,
)
    requires
        0 <= i <= msgs.len(),
        demux(schemas, msgs.take(i)) is Err,
    ensures
        demux(schemas, msgs) == demux(schemas, msgs.take(i)),
    decreases msgs.len() - i,
{
    if i < msgs.len() {
        assert(msgs.take(i + 1).drop_last() =~= msgs.take(i));
        lemma_demux_err_extends(schemas, msgs, i + 1);
    } else {
        assert(msgs.take(i) =~= msgs);
    }
}

/// A data frame whose event type has no declared field list makes the whole poll fail with
/// that event type, whatever comes after it, once the frames before it were accepted.
pub proof fn lemma_undeclared_event_type_fails(
    schemas: Seq<(Seq<char>, Seq<Seq<char>>)>,
    msgs: Seq<Incoming>,
    i: int,
    name: Seq<char>,
    vals: Seq<FeedValue>,
)
    requires
        0 <= i < msgs.len(),
        demux(schemas, msgs.take(i)) is Ok,
        frame_of(msgs[i]) == Some((name, vals)),
        schema_of(schemas, name) is None,
    ensures
        demux(schemas, msgs) == Err::<Seq<(Seq<char>, Seq<Seq<char>>, Seq<FeedValue>)>, Seq<char>>(
            name,
        ),
{
    assert(msgs.take(i + 1).drop_last() =~= msgs.take(i));
    assert(msgs.take(i + 1).last() == msgs[i]);
    lemma_demux_err_extends(schemas, msgs, i + 1);
}

impl Client {
    /// A disconnected client for the feed at `base_url`, authenticating with `token`.
    pub fn new(base_url: String, token: String) -> (r: Client)
        ensures
            r@.phase == Phase::Disconnected,
            r@.channel is None,
            r@.schemas == Seq::<(Seq<char>, Seq<Seq<char>>)>::empty(),
            r@.token == token@,
            r@.url == base_url@,
    {
        Client {
            base_url,
            token,
            phase: Phase::Disconnected,
            feed_channel: None,
            subscription_fields: SchemaRegistry::new(),
        }
    }

    pub fn base_url(&self) -> (r: &String)
        ensures
            r@ == self@.url,
    {
        &self.base_url
    }

    pub fn phase(&self) -> (r: Phase)
        ensures
            r == self@.phase,
    {
        self.phase
    }

    pub fn feed_channel(&self) -> (r: Option<i32>)
        ensures
            r == self@.channel,
    {
        self.feed_channel
    }

    pub fn subscription_fields(&self) -> (r: &SchemaRegistry)
        ensures
            r@ == self@.schemas,
    {
        &self.subscription_fields
    }

    /// Starts a session on a newly opened transport: forgets the channel and the field lists
    /// of any earlier session and returns the setup message to send.
    pub fn transport_opened(&mut self) -> (r: String)
        ensures
            r@ == setup_text(),
            final(self)@.phase == Phase::AwaitingSetup,
            final(self)@.channel is None,
            final(self)@.schemas == Seq::<(Seq<char>, Seq<Seq<char>>)>::empty(),
            final(self)@.token == old(self)@.token,
            final(self)@.url == old(self)@.url,
    {
        self.phase = Phase::AwaitingSetup;
        self.feed_channel = None;
        self.subscription_fields = SchemaRegistry::new();
        setup_message()
    }

    /// Ends the session; doing so twice is the same as once.
    pub fn disconnect(&mut self)
        ensures
            final(self)@.phase == Phase::Disconnected,
            final(self)@.channel is None,
            final(self)@.schemas == Seq::<(Seq<char>, Seq<Seq<char>>)>::empty(),
            final(self)@.token == old(self)@.token,
            final(self)@.url == old(self)@.url,
    {
        self.phase = Phase::Disconnected;
        self.feed_channel = None;
        self.subscription_fields = SchemaRegistry::new();
    }

    /// Takes the reply to the setup message. A `SETUP` reply moves on to authorisation and
    /// gives the auth message to send; any other reply fails the session.
    pub fn setup_reply(&mut self, reply: &Incoming) -> (r: Result<String, StreamError>)
        ensures
            old(self)@.phase != Phase::AwaitingSetup ==> (r matches Err(StreamError::OutOfOrder))
                && final(self)@ == old(self)@,
            old(self)@.phase == Phase::AwaitingSetup && has_type(*reply, "SETUP"@) ==> (r matches Ok(
                m,
            ) && m@ == auth_text(old(self)@.token)) && final(self)@ == (ClientView {
                phase: Phase::AwaitingAuth,
                ..old(self)@
            }),
            old(self)@.phase == Phase::AwaitingSetup && !has_type(*reply, "SETUP"@) ==> (r matches Err(
                StreamError::HandshakeDecodeFailure(HandshakeStep::Setup),
            )) && final(self)@ == (ClientView { phase: Phase::Failed, ..old(self)@ }),
    {
        if self.phase != Phase::AwaitingSetup {
            return Err(StreamError::OutOfOrder);
        }
        let ok = match &reply.message_type {
            Some(t) => same_text(t, "SETUP"),
            None => false,
        };
        if ok {
            self.phase = Phase::AwaitingAuth;
            Ok(auth_message(self.token.as_str()))
        } else {
            self.phase = Phase::Failed;
            Err(StreamError::HandshakeDecodeFailure(HandshakeStep::Setup))
        }
    }

    /// Takes the reply to the auth message: a state of `AUTHORIZED` authorizes the session,
    /// any other state is a rejection, and a reply without a state is unreadable.
    pub fn auth_reply(&mut self, reply: &Incoming) -> (r: Result<(), StreamError>)
        ensures
            old(self)@.phase != Phase::AwaitingAuth ==> (r matches Err(StreamError::OutOfOrder))
                && final(self)@ == old(self)@,
            old(self)@.phase == Phase::AwaitingAuth ==> match reply.state {
                Some(s) => if s@ == "AUTHORIZED"@ {
                    r is Ok && final(self)@ == (ClientView {
                        phase: Phase::Authorized,
                        ..old(self)@
                    })
                } else {
                    (r matches Err(StreamError::AuthenticationRejected)) && final(self)@ == (
                    ClientView { phase: Phase::Failed, ..old(self)@ })
                },
                None => (r matches Err(StreamError::HandshakeDecodeFailure(HandshakeStep::Auth)))
                    && final(self)@ == (ClientView { phase: Phase::Failed, ..old(self)@ }),
            },
    {
        if self.phase != Phase::AwaitingAuth {
            return Err(StreamError::OutOfOrder);
        }
        match &reply.state {
            Some(s) => {
                if same_text(s, "AUTHORIZED") {
                    self.phase = Phase::Authorized;
                    Ok(())
                } else {
                    self.phase = Phase::Failed;
                    Err(StreamError::AuthenticationRejected)
                }
            },
            None => {
                self.phase = Phase::Failed;
                Err(StreamError::HandshakeDecodeFailure(HandshakeStep::Auth))
            },
        }
    }

    /// Whether the feed channel still has to be opened before subscribing.
    pub fn needs_channel(&self) -> (r: bool)
        ensures
            r == (self@.phase == Phase::Authorized && self@.channel is None),
    {
        self.phase == Phase::Authorized && self.feed_channel.is_none()
    }

    /// Asks for the feed channel: returns the request to send.
    pub fn request_channel(&mut self) -> (r: Result<String, StreamError>)
        ensures
            old(self)@.phase == Phase::Authorized && old(self)@.channel is None ==> (r matches Ok(m)
                && m@ == crate::messages::channel_request_text()) && final(self)@ == (ClientView {
                phase: Phase::AwaitingChannel,
                ..old(self)@
            }),
            !(old(self)@.phase == Phase::Authorized && old(self)@.channel is None) ==> (r matches Err(
                StreamError::OutOfOrder,
            )) && final(self)@ == old(self)@,
    {
        if !(self.phase == Phase::Authorized && self.feed_channel.is_none()) {
            return Err(StreamError::OutOfOrder);
        }
        self.phase = Phase::AwaitingChannel;
        Ok(channel_request_message())
    }

    /// Takes the reply to the channel request: a `CHANNEL_OPENED` reply with a channel number
    /// opens it; any other reply fails the session.
    pub fn channel_reply(&mut self, reply: &Incoming) -> (r: Result<(), StreamError>)
        ensures
            old(self)@.phase != Phase::AwaitingChannel ==> (r matches Err(StreamError::OutOfOrder))
                && final(self)@ == old(self)@,
            old(self)@.phase == Phase::AwaitingChannel && has_type(*reply, "CHANNEL_OPENED"@)
                && reply.channel is Some ==> r is Ok && final(self)@ == (ClientView {
                phase: Phase::Authorized,
                channel: reply.channel,
                ..old(self)@
            }),
            old(self)@.phase == Phase::AwaitingChannel && !(has_type(*reply, "CHANNEL_OPENED"@)
                && reply.channel is Some) ==> (r matches Err(
                StreamError::HandshakeDecodeFailure(HandshakeStep::ChannelOpen),
            )) && final(self)@ == (ClientView { phase: Phase::Failed, ..old(self)@ }),
    {
        if self.phase != Phase::AwaitingChannel {
            return Err(StreamError::OutOfOrder);
        }
        let opened = match &reply.message_type {
            Some(t) => same_text(t, "CHANNEL_OPENED"),
            None => false,
        };
        match reply.channel {
            Some(c) => {
                if opened {
                    self.phase = Phase::Authorized;
                    self.feed_channel = Some(c);
                    return Ok(());
                }
            },
            None => {},
        }
        self.phase = Phase::Failed;
        Err(StreamError::HandshakeDecodeFailure(HandshakeStep::ChannelOpen))
    }

    /// Declares `fields` for event type `name` if this is its first subscription, and
    /// subscribes `symbols` to it: returns the messages to send, in order, the field
    /// declaration first when there is one, then one subscription message per run of at most
    /// `MAX_SUBSCRIPTION_SIZE` symbols.
    pub fn add_subscription(&mut self, name: &str, fields: &[String], symbols: &[String]) -> (r: Result<Vec<String>, StreamError>)
        ensures
            old(self)@.phase != Phase::Authorized ==> (r matches Err(
                StreamError::ConnectionNotEstablished,
            )) && final(self)@ == old(self)@,
            old(self)@.phase == Phase::Authorized ==> match old(self)@.channel {
                None => (r matches Err(StreamError::OutOfOrder)) && final(self)@ == old(self)@,
                Some(c) => (r matches Ok(msgs) && texts(msgs@) == subscribe_texts(
                    c as int,
                    old(self)@.schemas,
                    name@,
                    texts(fields@),
                    texts(symbols@),
                )) && final(self)@ == (ClientView {
                    schemas: if schema_of(old(self)@.schemas, name@) is None {
                        old(self)@.schemas.push((name@, texts(fields@)))
                    } else {
                        old(self)@.schemas
                    },
                    ..old(self)@
                }),
            },
    {
        if self.phase != Phase::Authorized {
            return Err(StreamError::ConnectionNotEstablished);
        }
        let c = match self.feed_channel {
            Some(c) => c,
            None => {
                return Err(StreamError::OutOfOrder);
            },
        };
        let mut msgs: Vec<String> = Vec::new();
        if self.subscription_fields.negotiate(name, fields) {
            msgs.push(feed_setup_message(c, name, fields));
        }
        let ghost prefix = texts(msgs@);
        let ghost syms = texts(symbols@);
        let ghost mut k: int = 0;
        let mut start: usize = 0;
        assert(texts(msgs@) =~= prefix + Seq::new(
            0,
            |j: int| subscription_text(c as int, name@, chunk(syms, j)),
        ));
        while start < symbols.len()
            invariant
                syms == texts(symbols@),
                syms.len() == symbols.len(),
                start == if k * MAX_SUBSCRIPTION_SIZE < symbols.len() {
                    k * MAX_SUBSCRIPTION_SIZE
                } else {
                    symbols.len() as int
                },
                k > 0 ==> (k - 1) * MAX_SUBSCRIPTION_SIZE < symbols.len(),
                k >= 0,
                texts(msgs@) == prefix + Seq::new(
                    k as nat,
                    |j: int| subscription_text(c as int, name@, chunk(syms, j)),
                ),
            decreases symbols.len() - start,
        {
            let end: usize = if symbols.len() - start > MAX_SUBSCRIPTION_SIZE {
                start + MAX_SUBSCRIPTION_SIZE
            } else {
                symbols.len()
            };
            let m = subscription_message(c, name, symbols, start, end);
            assert(syms.subrange(start as int, end as int) == chunk(syms, k));
            let ghost before = texts(msgs@);
            let ghost k0 = k;
            msgs.push(m);
            assert(texts(msgs@) =~= before.push(m@));
            proof {
                k = k + 1;
            }
            assert forall|j: int| 0 <= j < k implies #[trigger] texts(msgs@)[prefix.len() + j]
                == subscription_text(c as int, name@, chunk(syms, j)) by {
                if j < k0 {
                    assert(texts(msgs@)[prefix.len() + j] == before[prefix.len() + j]);
                }
            }
            assert(texts(msgs@) =~= prefix + Seq::new(
                k as nat,
                |j: int| subscription_text(c as int, name@, chunk(syms, j)),
            ));
            start = end;
        }
        assert(k == chunk_count(syms.len()));
        Ok(msgs)
    }

    /// Splits the data frames among `messages` by event type, appending each frame's values
    /// to its event type's series; other messages are skipped. Fails on the first frame whose
    /// event type has no declared field list. Returns the keepalive message to send after.
    pub fn poll_subscriptions(&self, messages: &Vec<Incoming>) -> (r: Result<PollResult, StreamError>)
        ensures
            self@.phase != Phase::Authorized ==> r matches Err(StreamError::ConnectionNotEstablished),
            self@.phase == Phase::Authorized ==> match demux(self@.schemas, messages@) {
                Ok(acc) => r matches Ok(p) && series_views(p.data@) == acc && p.keepalive@
                    == keepalive_text(),
                Err(name) => r matches Err(StreamError::MissingSchema(n)) && n@ == name,
            },
    {
        if self.phase != Phase::Authorized {
            return Err(StreamError::ConnectionNotEstablished);
        }
        let ghost sch = self.subscription_fields@;
        let mut acc: Vec<SubscriptionData> = Vec::new();
        let mut i: usize = 0;
        assert(messages@.take(0) =~= Seq::<Incoming>::empty());
        assert(series_views(acc@) =~= Seq::<(Seq<char>, Seq<Seq<char>>, Seq<FeedValue>)>::empty());
        while i < messages.len()
            invariant
                i <= messages.len(),
                self@.phase == Phase::Authorized,
                sch == self@.schemas,
                demux(sch, messages@.take(i as int)) == Ok::<
                    Seq<(Seq<char>, Seq<Seq<char>>, Seq<FeedValue>)>,
                    Seq<char>,
                >(series_views(acc@)),
            decreases messages.len() - i,
        {
            let ghost cur = messages@.take(i + 1);
            assert(cur.drop_last() =~= messages@.take(i as int));
            assert(cur.last() == messages@[i as int]);
            let m = &messages[i];
            if let Some(f) = &m.data {
                if let (Some(name), Some(vals)) = (&f.event_type, &f.values) {
                    let fs = match self.subscription_fields.fields(name.as_str()) {
                        Some(fs) => fs,
                        None => {
                            proof {
                                lemma_demux_err_extends(sch, messages@, i + 1);
                            }
                            return Err(StreamError::MissingSchema(name.clone()));
                        },
                    };
                    let ghost old_views = series_views(acc@);
                    match find_series(&acc, name.as_str()) {
                        Some(k) => {
                            let mut vs = copy_values(&acc[k].values);
                            let mut j: usize = 0;
                            let ghost base = vs@;
                            while j < vals.len()
                                invariant
                                    j <= vals.len(),
                                    vs@ == base + vals@.take(j as int),
                                decreases vals.len() - j,
                            {
                                vs.push(vals[j].copy());
                                j = j + 1;
                                assert(vs@ =~= base + vals@.take(j as int));
                            }
                            assert(vals@.take(vals.len() as int) =~= vals@);
                            let item = SubscriptionData {
                                event_type: acc[k].event_type.clone(),
                                fields: copy_strings(&acc[k].fields),
                                values: vs,
                            };
                            acc[k] = item;
                            assert(series_views(acc@) =~= add_frame(old_views, name@, texts(fs@), vals@));
                        },
                        None => {
                            let item = SubscriptionData {
                                event_type: name.clone(),
                                fields: fs,
                                values: copy_values(vals),
                            };
                            acc.push(item);
                            assert(series_views(acc@) =~= add_frame(old_views, name@, texts(item.fields@), vals@));
                        },
                    }
                }
            }
            i = i + 1;
        }
        assert(messages@.take(messages.len() as int) =~= messages@);
        Ok(PollResult { data: acc, keepalive: keepalive_message() })
    }
}

} // verus!
