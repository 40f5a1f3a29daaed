//! The answer of every handler: MQTT messages and controller commands.
use crate::mqtt::{MqttMsg, MqttMsgView};
use vstd::prelude::*;
use vstd::string::*;

verus! {

/// MQTT messages to publish and controller commands to send, each in order.
#[derive(Debug, Clone, Default, PartialEq)]
pub struct TwoWay {
    pub mqtt: Vec<MqttMsg>,
    pub ow: Vec<String>,
}

/// The content of a [`TwoWay`].
pub struct TwoWayView {
    pub mqtt: Seq<MqttMsgView>,
    pub ow: Seq<Seq<char>>,
}

impl TwoWayView {
    /// Nothing to publish and nothing to send.
    pub open spec fn empty() -> TwoWayView {
        TwoWayView { mqtt: Seq::empty(), ow: Seq::empty() }
    }

    /// The messages only.
    pub open spec fn of_mqtt(msgs: Seq<MqttMsgView>) -> TwoWayView {
        TwoWayView { mqtt: msgs, ow: Seq::empty() }
    }

    /// One controller command.
    pub open spec fn of_1wire(cmd: Seq<char>) -> TwoWayView {
        TwoWayView { mqtt: Seq::empty(), ow: seq![cmd] }
    }

    /// First what `self` holds, then what `rhs` holds.
    pub open spec fn plus(self, rhs: TwoWayView) -> TwoWayView {
        TwoWayView { mqtt: self.mqtt + rhs.mqtt, ow: self.ow + rhs.ow }
    }
}

/// Answers compose: putting them one after the other does not depend on how
/// they are grouped, and the empty answer changes nothing on either side.
pub proof fn law_plus_is_a_monoid(a: TwoWayView, b: TwoWayView, c: TwoWayView)
    ensures
        a.plus(b).plus(c) == a.plus(b.plus(c)),
        TwoWayView::empty().plus(a) == a,
        a.plus(TwoWayView::empty()) == a,
{
    assert(a.plus(b).plus(c).mqtt =~= a.plus(b.plus(c)).mqtt);
    assert(a.plus(b).plus(c).ow =~= a.plus(b.plus(c)).ow);
    assert(TwoWayView::empty().plus(a).mqtt =~= a.mqtt);
    assert(TwoWayView::empty().plus(a).ow =~= a.ow);
    assert(a.plus(TwoWayView::empty()).mqtt =~= a.mqtt);
    assert(a.plus(TwoWayView::empty()).ow =~= a.ow);
}

impl View for TwoWay {
    type V = TwoWayView;

    open spec fn view(&self) -> TwoWayView {
        TwoWayView { mqtt: self.mqtt.deep_view(), ow: self.ow.deep_view() }
    }
}

impl TwoWay {
    pub fn new(msgs: Vec<MqttMsg>, cmds: Vec<String>) -> (r: Self)
        ensures
            r@ == (TwoWayView { mqtt: msgs.deep_view(), ow: cmds.deep_view() }),
            r.mqtt == msgs,
            r.ow == cmds,
    {
        TwoWay { mqtt: msgs, ow: cmds }
    }

    /// Nothing to publish and nothing to send.
    pub fn empty() -> (r: Self)
        ensures
            r@ == TwoWayView::empty(),
    {
        let r = TwoWay { mqtt: Vec::new(), ow: Vec::new() };
        assert(r@.mqtt =~= Seq::empty());
        assert(r@.ow =~= Seq::empty());
        r
    }

    /// One controller command.
    pub fn from_1wire(cmd: &str) -> (r: Self)
        ensures
            r@ == TwoWayView::of_1wire(cmd@),
    {
        let mut ow: Vec<String> = Vec::new();
        ow.push(String::from_str(cmd));
        let r = TwoWay { mqtt: Vec::new(), ow };
        assert(r@.mqtt =~= Seq::empty());
        assert(r@.ow =~= seq![cmd@]);
        r
    }

    /// One MQTT message.
    pub fn from_mqtt(msg: MqttMsg) -> (r: Self)
        ensures
            r@ == TwoWayView::of_mqtt(seq![msg@]),
    {
        let mut mqtt: Vec<MqttMsg> = Vec::new();
        mqtt.push(msg);
        let r = TwoWay { mqtt, ow: Vec::new() };
        assert(r@.mqtt =~= seq![msg@]);
        assert(r@.ow =~= Seq::empty());
        r
    }

    /// MQTT messages only.
    pub fn mqtt(msgs: Vec<MqttMsg>) -> (r: Self)
        ensures
            r@ == TwoWayView::of_mqtt(msgs.deep_view()),
            r.mqtt == msgs,
    {
        let r = TwoWay { mqtt: msgs, ow: Vec::new() };
        assert(r@.ow =~= Seq::empty());
        r
    }

    /// Appends what `rhs` holds.
    pub fn append(&mut self, rhs: TwoWay)
        ensures
            final(self)@ == old(self)@.plus(rhs@),
    {
        let ghost added = rhs@;
        let mut rhs = rhs;
        self.mqtt.append(&mut rhs.mqtt);
        self.ow.append(&mut rhs.ow);
        assert(self@.mqtt =~= old(self)@.mqtt + added.mqtt);
        assert(self@.ow =~= old(self)@.ow + added.ow);
    }

    /// Appends one MQTT message.
    pub fn push_mqtt(&mut self, msg: MqttMsg)
        ensures
            final(self)@.mqtt == old(self)@.mqtt.push(msg@),
            final(self)@.ow == old(self)@.ow,
    {
        self.mqtt.push(msg);
        assert(self@.mqtt =~= old(self)@.mqtt.push(msg@));
    }
}

impl vstd::std_specs::ops::AddSpecImpl for TwoWay {
    /// The sum is stated over views, by `add` itself.
    open spec fn obeys_add_spec() -> bool {
        false
    }

    open spec fn add_req(self, rhs: TwoWay) -> bool {
        true
    }

    open spec fn add_spec(self, rhs: TwoWay) -> TwoWay {
        self
    }
}

impl core::ops::Add for TwoWay {
    type Output = TwoWay;

    /// First what `self` holds, then what `rhs` holds.
    fn add(self, rhs: TwoWay) -> (r: TwoWay)
        ensures
            r@ == self@.plus(rhs@),
    {
        let mut r = self;
        r.append(rhs);
        r
    }
}

} // verus!
