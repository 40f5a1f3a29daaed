//! MQTT messages and the decisions of the broker session.
use crate::text::{chars_of, decode_strict, string_of};
use vstd::prelude::*;
use vstd::string::*;
use vstd::utf8::{decode_utf8, valid_utf8};

verus! {

/// A message to or from the MQTT broker.
#[derive(Debug, Clone, PartialEq)]
pub enum MqttMsg {
    Pub { topic: String, payload: String, retain: bool },
    Sub { topic: String },
    Reconnected,
}

/// The content of an [`MqttMsg`].
pub enum MqttMsgView {
    Pub { topic: Seq<char>, payload: Seq<char>, retain: bool },
    Sub { topic: Seq<char> },
    Reconnected,
}

impl View for MqttMsg {
    type V = MqttMsgView;

    open spec fn view(&self) -> MqttMsgView {
        match self {
            MqttMsg::Pub { topic, payload, retain } => MqttMsgView::Pub {
                topic: topic@,
                payload: payload@,
                retain: *retain,
            },
            MqttMsg::Sub { topic } => MqttMsgView::Sub { topic: topic@ },
            MqttMsg::Reconnected => MqttMsgView::Reconnected,
        }
    }
}

impl DeepView for MqttMsg {
    type V = MqttMsgView;

    open spec fn deep_view(&self) -> MqttMsgView {
        self@
    }
}

/// A publication that is not retained.
pub open spec fn publication(topic: Seq<char>, payload: Seq<char>) -> MqttMsgView {
    MqttMsgView::Pub { topic, payload, retain: false }
}

/// A retained publication.
pub open spec fn retained(topic: Seq<char>, payload: Seq<char>) -> MqttMsgView {
    MqttMsgView::Pub { topic, payload, retain: true }
}

/// What `rumqttc::matches` answers for a topic and a topic filter.
pub uninterp spec fn mqtt_matches(topic: Seq<char>, filter: Seq<char>) -> bool;

/// The topics that the broker's matcher can take: the empty one and those that
/// begin with an ASCII character.
pub open spec fn matchable(topic: Seq<char>) -> bool {
    topic.len() == 0 || (topic[0] as u32) < 128
}

/// A topic or a filter behind one more level, `t`. The matcher compares level
/// by level, so that the level before both changes nothing but the first
/// byte that it sees.
pub open spec fn behind_level(s: Seq<char>) -> Seq<char> {
    "t/"@ + s
}

/// Whether a filter accepts a topic, by the broker's wildcard matching. The
/// matcher is asked about topic and filter as they are where it can take the
/// topic, else about both behind the same level.
pub open spec fn filter_accepts(filter: Seq<char>, topic: Seq<char>) -> bool {
    if matchable(topic) {
        mqtt_matches(topic, filter)
    } else {
        mqtt_matches(behind_level(topic), behind_level(filter))
    }
}

/// A topic that the broker keeps to itself: it begins with `$`.
pub open spec fn reserved(topic: Seq<char>) -> bool {
    topic.len() > 0 && topic[0] == '$'
}

/// Calls `rumqttc::matches`, which compares a topic with a filter level by
/// level (`+` for one level, `#` for the rest) and accepts no topic that
/// begins with `$`. A filter that is the topic itself accepts it, since the
/// two agree level by level. The matcher looks at the topic's first byte as
/// a string of its own, so the topic must not begin with a character of
/// several bytes.
#[verifier::external_body]
pub(crate) fn broker_matches(topic: &str, filter: &str) -> (r: bool)
    requires
        matchable(topic@),
    ensures
        r == mqtt_matches(topic@, filter@),
        topic@ == filter@ && !reserved(topic@) ==> r,
{
    rumqttc::matches(topic, filter)
}

/// Whether a filter accepts a topic. A filter that is the topic itself
/// accepts it, unless the topic begins with `$`.
pub fn topic_matches(topic: &str, filter: &str) -> (r: bool)
    ensures
        r == filter_accepts(filter@, topic@),
        topic@ == filter@ && !reserved(topic@) ==> r,
{
    let ok = if topic.unicode_len() == 0 {
        true
    } else {
        (topic.get_char(0) as u32) < 128
    };
    if ok {
        broker_matches(topic, filter)
    } else {
        let mut t = String::from_str("t/");
        t.append(topic);
        let mut f = String::from_str("t/");
        f.append(filter);
        proof {
            reveal_strlit("t/");
            assert(t@[0] == 't');
            assert(!reserved(t@));
        }
        broker_matches(t.as_str(), f.as_str())
    }
}

impl MqttMsg {
    /// A publication that is not retained.
    pub fn new(topic: &str, payload: &str) -> (m: Self)
        ensures
            m@ == publication(topic@, payload@),
    {
        MqttMsg::Pub {
            topic: String::from_str(topic),
            payload: String::from_str(payload),
            retain: false,
        }
    }

    /// A retained publication.
    pub fn retain(topic: &str, payload: &str) -> (m: Self)
        ensures
            m@ == retained(topic@, payload@),
    {
        MqttMsg::Pub {
            topic: String::from_str(topic),
            payload: String::from_str(payload),
            retain: true,
        }
    }

    /// A subscription.
    pub fn sub(topic: &str) -> (m: Self)
        ensures
            m@ == (MqttMsgView::Sub { topic: topic@ }),
    {
        MqttMsg::Sub { topic: String::from_str(topic) }
    }

    /// The topic of a publication or a subscription.
    pub fn topic(&self) -> (t: &str)
        requires
            !(self is Reconnected),
        ensures
            self@ matches MqttMsgView::Pub { topic, .. } ==> t@ == topic,
            self@ matches MqttMsgView::Sub { topic } ==> t@ == topic,
    {
        match self {
            MqttMsg::Pub { topic, .. } => topic.as_str(),
            MqttMsg::Sub { topic } => topic.as_str(),
            MqttMsg::Reconnected => "",
        }
    }

    /// The payload of a publication.
    pub fn payload(&self) -> (p: &str)
        requires
            self is Pub,
        ensures
            self@ matches MqttMsgView::Pub { payload, .. } && p@ == payload,
    {
        match self {
            MqttMsg::Pub { payload, .. } => payload.as_str(),
            _ => "",
        }
    }

    /// Whether this is a publication whose topic the filter accepts.
    pub fn matches(&self, topic_pattern: &str) -> (r: bool)
        ensures
            r == (self@ matches MqttMsgView::Pub { topic, .. } && filter_accepts(
                topic_pattern@,
                topic,
            )),
    {
        match self {
            MqttMsg::Pub { topic, .. } => topic_matches(topic.as_str(), topic_pattern),
            _ => false,
        }
    }

    /// The line that describes the message in a log.
    pub open spec fn spec_to_text(self) -> Seq<char> {
        match self {
            MqttMsg::Pub { topic, payload, retain } => topic@ + " "@ + payload@ + if retain {
                " (retain)"@
            } else {
                ""@
            },
            MqttMsg::Sub { topic } => "Subscribe "@ + topic@,
            MqttMsg::Reconnected => "Reconnected to broker"@,
        }
    }

    /// The line that describes the message in a log.
    pub fn to_text(&self) -> (s: String)
        ensures
            s@ == self.spec_to_text(),
    {
        match self {
            MqttMsg::Pub { topic, payload, retain } => {
                let mut s = topic.clone();
                s.append(" ");
                s.append(payload.as_str());
                if *retain {
                    s.append(" (retain)");
                } else {
                    s.append("");
                }
                s
            },
            MqttMsg::Sub { topic } => {
                let mut s = String::from_str("Subscribe ");
                s.append(topic.as_str());
                s
            },
            MqttMsg::Reconnected => String::from_str("Reconnected to broker"),
        }
    }
}


/// Why the broker session has no message to give.
#[derive(Debug, Clone, Copy, PartialEq, Eq, Structural)]
pub enum Error {
    /// The broker did not accept the connection.
    Connect,
    /// The connection to the broker was lost.
    Disconnected,
    /// A payload that is no UTF-8.
    Utf8,
}

/// What arrives from the broker, as far as the session looks at it.
#[derive(Debug, Clone, PartialEq)]
pub enum Incoming {
    /// A publication.
    Publish { topic: String, payload: Vec<u8> },
    /// The broker ends the connection.
    Disconnect,
    /// The broker's answer to a connection attempt.
    ConnAck { accepted: bool },
    /// Anything else.
    Other,
}

/// The content of an [`Incoming`].
pub enum IncomingView {
    Publish { topic: Seq<char>, payload: Seq<u8> },
    Disconnect,
    ConnAck { accepted: bool },
    Other,
}

impl View for Incoming {
    type V = IncomingView;

    open spec fn view(&self) -> IncomingView {
        match self {
            Incoming::Publish { topic, payload } => IncomingView::Publish {
                topic: topic@,
                payload: payload@,
            },
            Incoming::Disconnect => IncomingView::Disconnect,
            Incoming::ConnAck { accepted } => IncomingView::ConnAck { accepted: *accepted },
            Incoming::Other => IncomingView::Other,
        }
    }
}

/// What the session hands on for a packet of the broker: a publication whose
/// payload is UTF-8 as it is, a notice after an accepted connection, nothing
/// for other packets. A payload that is no UTF-8 and the end of the
/// connection are errors.
pub open spec fn processed(pck: IncomingView) -> Result<Option<MqttMsgView>, Error> {
    match pck {
        IncomingView::Publish { topic, payload } => if valid_utf8(payload) {
            Ok(Some(publication(topic, decode_utf8(payload))))
        } else {
            Err(Error::Utf8)
        },
        IncomingView::Disconnect => Err(Error::Disconnected),
        IncomingView::ConnAck { accepted } => if accepted {
            Ok(Some(MqttMsgView::Reconnected))
        } else {
            Ok(None)
        },
        IncomingView::Other => Ok(None),
    }
}

/// The content of what `process_packet` returns.
pub open spec fn processed_view(r: Result<Option<MqttMsg>, Error>) -> Result<
    Option<MqttMsgView>,
    Error,
> {
    match r {
        Ok(Some(m)) => Ok(Some(m@)),
        Ok(None) => Ok(None),
        Err(e) => Err(e),
    }
}

/// Turns a packet of the broker into the message to hand on, if any.
pub fn process_packet(pck: Incoming) -> (r: Result<Option<MqttMsg>, Error>)
    ensures
        processed_view(r) == processed(pck@),
{
    match pck {
        Incoming::Publish { topic, payload } => match decode_strict(payload) {
            Some(text) => Ok(Some(MqttMsg::Pub { topic, payload: text, retain: false })),
            None => Err(Error::Utf8),
        },
        Incoming::Disconnect => Err(Error::Disconnected),
        Incoming::ConnAck { accepted } => if accepted {
            Ok(Some(MqttMsg::Reconnected))
        } else {
            Ok(None)
        },
        Incoming::Other => Ok(None),
    }
}

/// The delay before the first attempt to connect again, in milliseconds.
pub const FIRST_RETRY: u64 = 200;

/// The longest delay between two attempts to connect again, in milliseconds.
pub const LONGEST_RETRY: u64 = 20_000;

/// The delay after a delay of `retry`: a fifth longer, but no longer than the
/// longest.
pub open spec fn retry_after(retry: u64) -> u64 {
    if retry >= LONGEST_RETRY || retry * 6 / 5 >= LONGEST_RETRY {
        LONGEST_RETRY
    } else {
        (retry * 6 / 5) as u64
    }
}

/// The delay before the next attempt to connect again.
pub fn next_retry(retry: u64) -> (r: u64)
    ensures
        r == retry_after(retry),
        r <= LONGEST_RETRY,
{
    if retry >= LONGEST_RETRY {
        LONGEST_RETRY
    } else {
        let next = retry * 6 / 5;
        if next >= LONGEST_RETRY {
            LONGEST_RETRY
        } else {
            next
        }
    }
}

/// How many packets the broker may send before it must have accepted the
/// connection.
pub const CONNECT_PACKETS: u8 = 3;

/// What happens while the session connects.
#[derive(Debug, Clone, Copy, PartialEq, Eq, Structural)]
pub enum ConnectEvent {
    /// The broker answered the attempt.
    Ack { accepted: bool },
    /// The broker sent another packet.
    Packet,
    /// The transport failed.
    Failure,
}

/// What the session does while it connects.
#[derive(Debug, Clone, Copy, PartialEq, Eq, Structural)]
pub enum ConnectStep {
    /// The connection stands.
    Connected,
    /// The attempt failed.
    Failed(Error),
    /// The next packet decides.
    Wait,
}

/// The decision on packet number `seen`, counted from 0, of a connection
/// attempt. An accepted answer connects; a refusal and a failure of the
/// transport end the attempt; so does a third packet that is no answer.
pub open spec fn connect_decision(seen: u8, event: ConnectEvent) -> ConnectStep {
    match event {
        ConnectEvent::Ack { accepted } => if accepted {
            ConnectStep::Connected
        } else {
            ConnectStep::Failed(Error::Connect)
        },
        ConnectEvent::Failure => ConnectStep::Failed(Error::Connect),
        ConnectEvent::Packet => if seen + 1 >= CONNECT_PACKETS {
            ConnectStep::Failed(Error::Disconnected)
        } else {
            ConnectStep::Wait
        },
    }
}

/// Decides on a packet of a connection attempt.
pub fn connect_step(seen: u8, event: ConnectEvent) -> (r: ConnectStep)
    ensures
        r == connect_decision(seen, event),
{
    match event {
        ConnectEvent::Ack { accepted } => if accepted {
            ConnectStep::Connected
        } else {
            ConnectStep::Failed(Error::Connect)
        },
        ConnectEvent::Failure => ConnectStep::Failed(Error::Connect),
        ConnectEvent::Packet => if seen >= CONNECT_PACKETS - 1 {
            ConnectStep::Failed(Error::Disconnected)
        } else {
            ConnectStep::Wait
        },
    }
}

/// The payload of the last will: what the broker publishes, retained, under
/// the status topic when the bridge is gone.
pub const OFFLINE: &'static str = "offline";

/// The message that the session publishes once it is connected: `online`,
/// retained, under the status topic.
pub fn birth(status_topic: &str) -> (m: MqttMsg)
    ensures
        m@ == retained(status_topic@, "online"@),
{
    MqttMsg::retain(status_topic, "online")
}

/// The number of characters before the first colon: all of them where there
/// is none.
pub open spec fn before_colon(s: Seq<char>) -> nat
    decreases s.len(),
{
    if s.len() == 0 || s[0] == ':' {
        0
    } else {
        1 + before_colon(s.drop_first())
    }
}

/// The user name in `user:password`: what stands before the first colon.
pub open spec fn user_of(cred: Seq<char>) -> Seq<char> {
    cred.take(before_colon(cred) as int)
}

/// The password in `user:password`: what stands after the first colon,
/// nothing where there is no colon.
pub open spec fn password_of(cred: Seq<char>) -> Seq<char> {
    if before_colon(cred) < cred.len() {
        cred.skip(before_colon(cred) as int + 1)
    } else {
        Seq::empty()
    }
}

proof fn lemma_before_colon_is(s: Seq<char>, k: int)
    requires
        0 <= k <= s.len(),
        forall|i: int| 0 <= i < k ==> s[i] != ':',
        k == s.len() || s[k] == ':',
    ensures
        before_colon(s) == k,
    decreases k,
{
    if k > 0 {
        let t = s.drop_first();
        assert forall|i: int| 0 <= i < k - 1 implies t[i] != ':' by {
            assert(t[i] == s[i + 1]);
        }
        lemma_before_colon_is(t, k - 1);
    }
}

/// Splits `user:password`. Either half may be empty.
pub fn split_credentials(cred: &str) -> (r: (String, String))
    ensures
        r.0@ == user_of(cred@),
        r.1@ == password_of(cred@),
{
    let v = chars_of(cred);
    let mut k: usize = 0;
    while k < v.len() && v[k] != ':'
        invariant
            k <= v@.len(),
            forall|i: int| 0 <= i < k ==> v@[i] != ':',
        decreases v@.len() - k,
    {
        k += 1;
    }
    proof {
        lemma_before_colon_is(v@, k as int);
        assert(v@.subrange(0, k as int) =~= v@.take(k as int));
    }
    let user = string_of(&v, 0, k);
    let password = if k < v.len() {
        assert(v@.subrange(k + 1, v@.len() as int) =~= v@.skip(k + 1));
        string_of(&v, k + 1, v.len())
    } else {
        String::new()
    };
    (user, password)
}

} // verus!
