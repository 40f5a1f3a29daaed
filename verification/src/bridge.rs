//! The bridge: its buses, its route table, and where each message goes.
//!
//! The bridge waits on no channel. Its owner hands it what arrived, sends
//! what comes back, and comes again.
use crate::bus::{Bus, BusView};
use crate::device::{outcome, Device, Error, ErrorView};
use crate::message::OW;
use crate::mqtt::{reserved, MqttMsg, MqttMsgView};
use crate::routing::{cleared, recipients, subscription_msgs, Id, RouteView, Routes};
use crate::text::{chars_of, push_decimal, decimal};
use crate::twoway::{TwoWay, TwoWayView};
use vstd::prelude::*;
use vstd::string::*;

verus! {

/// The port of a controller where none is given.
pub const DEFAULT_PORT: u16 = 5000;

/// The delay before another attempt to reach a controller, in milliseconds.
pub const CONTROLLER_RETRY: u64 = 5000;

/// Whether a text holds a colon.
pub open spec fn has_colon(s: Seq<char>) -> bool {
    exists|i: int| 0 <= i < s.len() && s[i] == ':'
}

/// The endpoint of a controller: the address as it is where it names a port,
/// else with the default port after a colon.
pub open spec fn endpoint_of(addr: Seq<char>, default_port: u16) -> Seq<char> {
    if has_colon(addr) {
        addr
    } else {
        addr + ":"@ + decimal(default_port as nat)
    }
}

/// The endpoint of a controller, `HOST:PORT`.
pub fn endpoint(addr: &str, default_port: u16) -> (r: String)
    ensures
        r@ == endpoint_of(addr@, default_port),
{
    let v = chars_of(addr);
    let mut k: usize = 0;
    while k < v.len()
        invariant
            k <= v@.len(),
            v@ == addr@,
            forall|i: int| 0 <= i < k ==> v@[i] != ':',
        decreases v@.len() - k,
    {
        if v[k] == ':' {
            return String::from_str(addr);
        }
        k += 1;
    }
    let mut r = String::from_str(addr);
    r.append(":");
    push_decimal(&mut r, default_port as u64);
    r
}

/// What an MQTT message leads to: publications, commands, each for the bus
/// with the given index, and the errors of the devices that refused it.
#[derive(Debug, Clone, PartialEq)]
pub struct Routed {
    pub mqtt: Vec<MqttMsg>,
    pub ow: Vec<(usize, String)>,
    pub dropped: Vec<Error>,
}

/// The content of a [`Routed`].
pub struct RoutedView {
    pub mqtt: Seq<MqttMsgView>,
    pub ow: Seq<(usize, Seq<char>)>,
    pub dropped: Seq<ErrorView>,
}

/// The content of a list of errors.
pub open spec fn errors_view(errors: Seq<Error>) -> Seq<ErrorView> {
    errors.map_values(|e: Error| e@)
}

impl View for Routed {
    type V = RoutedView;

    open spec fn view(&self) -> RoutedView {
        RoutedView {
            mqtt: self.mqtt.deep_view(),
            ow: self.ow.deep_view(),
            dropped: errors_view(self.dropped@),
        }
    }
}

impl RoutedView {
    /// Nothing.
    pub open spec fn empty() -> RoutedView {
        RoutedView { mqtt: Seq::empty(), ow: Seq::empty(), dropped: Seq::empty() }
    }

    /// First what `self` holds, then what `rhs` holds.
    pub open spec fn plus(self, rhs: RoutedView) -> RoutedView {
        RoutedView {
            mqtt: self.mqtt + rhs.mqtt,
            ow: self.ow + rhs.ow,
            dropped: self.dropped + rhs.dropped,
        }
    }

    /// The answer of a device on the bus with index `bus`.
    pub open spec fn of(bus: usize, answer: Result<TwoWayView, ErrorView>) -> RoutedView {
        match answer {
            Ok(t) => RoutedView {
                mqtt: t.mqtt,
                ow: t.ow.map_values(|c: Seq<char>| (bus, c)),
                dropped: Seq::empty(),
            },
            Err(e) => RoutedView { mqtt: Seq::empty(), ow: Seq::empty(), dropped: seq![e] },
        }
    }
}

/// The index of the first of the first `n` buses whose controller has the
/// number `contno`.
pub open spec fn bus_of(buses: Seq<BusView>, contno: usize, n: nat) -> Option<usize>
    decreases n,
{
    if n == 0 || n > buses.len() {
        None
    } else {
        match bus_of(buses, contno, (n - 1) as nat) {
            Some(i) => Some(i),
            None => if buses[n - 1].contno as usize == contno {
                Some((n - 1) as usize)
            } else {
                None
            },
        }
    }
}

/// What one recipient makes of a publication: the answer of its device, or
/// nothing where no bus has its controller's number or the bus has no such
/// slot.
pub open spec fn delivered(buses: Seq<BusView>, payload: Seq<char>, id: Id) -> RoutedView {
    match bus_of(buses, id.0.bus, buses.len()) {
        Some(i) => if id.0.slot < buses[i as int].devices.len() {
            RoutedView::of(i, buses[i as int].devices[id.0.slot as int].command(payload, id.1))
        } else {
            RoutedView::empty()
        },
        None => RoutedView::empty(),
    }
}

/// What recipients make of a publication, one after the other.
pub open spec fn routed(buses: Seq<BusView>, payload: Seq<char>, ids: Seq<Id>) -> RoutedView
    decreases ids.len(),
{
    if ids.len() == 0 {
        RoutedView::empty()
    } else {
        routed(buses, payload, ids.drop_last()).plus(delivered(buses, payload, ids.last()))
    }
}

/// Whether an answer holds, in one piece, what one recipient makes of a
/// publication: the answer of its device, with the commands bound for the bus
/// of the device's own controller.
pub open spec fn served(buses: Seq<BusView>, payload: Seq<char>, id: Id, out: RoutedView) -> bool {
    exists|before: RoutedView, after: RoutedView| #[trigger]
        before.plus(delivered(buses, payload, id)).plus(after) == out
}

/// What the recipients of two lists make of a publication is what those of
/// the first make of it, followed by what those of the second make of it.
pub proof fn lemma_routed_concat(buses: Seq<BusView>, payload: Seq<char>, a: Seq<Id>, b: Seq<Id>)
    ensures
        routed(buses, payload, a + b) == routed(buses, payload, a).plus(routed(buses, payload, b)),
    decreases b.len(),
{
    let left = routed(buses, payload, a);
    if b.len() == 0 {
        assert(a + b =~= a);
        let both = left.plus(RoutedView::empty());
        assert(both.mqtt =~= left.mqtt && both.ow =~= left.ow && both.dropped =~= left.dropped);
    } else {
        lemma_routed_concat(buses, payload, a, b.drop_last());
        assert((a + b).drop_last() =~= a + b.drop_last());
        assert((a + b).last() == b.last());
        let mid = routed(buses, payload, b.drop_last());
        let last = delivered(buses, payload, b.last());
        let x = left.plus(mid).plus(last);
        let y = left.plus(mid.plus(last));
        assert(x.mqtt =~= y.mqtt && x.ow =~= y.ow && x.dropped =~= y.dropped);
    }
}

/// Every recipient of a publication is served: what its device answers
/// stands in the result, whoever else is a recipient.
pub proof fn law_every_recipient_is_served(
    buses: Seq<BusView>,
    payload: Seq<char>,
    ids: Seq<Id>,
    n: int,
)
    requires
        0 <= n < ids.len(),
    ensures
        served(buses, payload, ids[n], routed(buses, payload, ids)),
{
    let head = ids.take(n + 1);
    let tail = ids.skip(n + 1);
    assert(head + tail =~= ids);
    lemma_routed_concat(buses, payload, head, tail);
    assert(head.drop_last() =~= ids.take(n));
    assert(head.last() == ids[n]);
    let before = routed(buses, payload, ids.take(n));
    let after = routed(buses, payload, tail);
    assert(before.plus(delivered(buses, payload, ids[n])).plus(after) == routed(
        buses,
        payload,
        ids,
    ));
}

/// A publication with one recipient leads to what that recipient's device
/// answers and to nothing else: every command is bound for one bus, that of
/// the recipient's controller.
pub proof fn law_single_recipient(buses: Seq<BusView>, payload: Seq<char>, id: Id)
    ensures
        routed(buses, payload, seq![id]) == delivered(buses, payload, id),
        forall|k: int|
            0 <= k < delivered(buses, payload, id).ow.len() ==> Some(
                (#[trigger] delivered(buses, payload, id).ow[k]).0,
            ) == bus_of(buses, id.0.bus, buses.len()),
{
    let one = seq![id];
    assert(one.drop_last() =~= Seq::<Id>::empty());
    let d = delivered(buses, payload, id);
    let r = RoutedView::empty().plus(d);
    assert(r.mqtt =~= d.mqtt && r.ow =~= d.ow && r.dropped =~= d.dropped);
    assert(one.len() == 1 && one.last() == id);
    assert(routed(buses, payload, one.drop_last()) == RoutedView::empty());
    assert(routed(buses, payload, one) == r);
}

/// The buses of the bridge and the routes to their devices.
pub struct Bridge {
    pub buses: Vec<Bus>,
    pub routes: Routes,
}

/// The content of a [`Bridge`].
pub struct BridgeView {
    pub buses: Seq<BusView>,
    pub routes: Seq<RouteView>,
}

impl View for Bridge {
    type V = BridgeView;

    open spec fn view(&self) -> BridgeView {
        BridgeView { buses: self.buses.deep_view(), routes: self.routes@ }
    }
}

impl BridgeView {
    /// Every bus of the bridge is well-formed.
    pub open spec fn wf(self) -> bool {
        forall|i: int| 0 <= i < self.buses.len() ==> (#[trigger] self.buses[i]).wf()
    }

    /// What an MQTT message leads to. A publication goes to every recipient
    /// that the route table has for its topic; the notice of a new connection
    /// brings one subscription for every pattern of the table; a
    /// subscription brings nothing.
    pub open spec fn answer(self, msg: MqttMsgView) -> RoutedView {
        match msg {
            MqttMsgView::Pub { topic, payload, .. } => routed(
                self.buses,
                payload,
                recipients(self.routes, topic),
            ),
            MqttMsgView::Reconnected => RoutedView {
                mqtt: subscription_msgs(self.routes),
                ow: Seq::empty(),
                dropped: Seq::empty(),
            },
            MqttMsgView::Sub { .. } => RoutedView::empty(),
        }
    }
}

impl Bridge {
    /// A bridge for `n` controllers, none of which has been heard of yet.
    pub fn new(n: usize) -> (r: Self)
        ensures
            r@.buses.len() == n,
            forall|i: int| 0 <= i < n ==> r@.buses[i] == BusView::empty(),
            r@.routes == Seq::<RouteView>::empty(),
            r@.wf(),
    {
        let mut buses: Vec<Bus> = Vec::new();
        while buses.len() < n
            invariant
                buses@.len() <= n,
                forall|i: int|
                    0 <= i < buses@.len() ==> (#[trigger] buses@[i])@ == BusView::empty()
                        && buses@[i]@.wf(),
            decreases n - buses@.len(),
        {
            buses.push(Bus::new());
        }
        Bridge { buses, routes: Routes::new() }
    }

    /// Hands a message of the controller with index `i` to its bus.
    pub fn on_controller(&mut self, i: usize, resp: OW, now: u64) -> (r: Result<TwoWay, Error>)
        requires
            i < old(self)@.buses.len(),
            old(self)@.wf(),
        ensures
            final(self)@.wf(),
            final(self)@.buses == old(self)@.buses.update(
                i as int,
                old(self)@.buses[i as int].after(resp@, now),
            ),
            final(self)@.routes == old(self)@.buses[i as int].routes_after(
                resp@,
                old(self)@.routes,
            ),
            outcome(r) == old(self)@.buses[i as int].answer(resp@, old(self)@.routes, now),
    {
        let ghost before = self@.buses;
        assert(before[i as int].wf());
        let r = self.buses[i].handle_1wire(resp, &mut self.routes, now);
        proof {
            assert(self@.buses =~= before.update(i as int, before[i as int].after(resp@, now)));
            assert forall|k: int| 0 <= k < self@.buses.len() implies (#[trigger] self@.buses[k]).wf() by {
                if k != i {
                    assert(self@.buses[k] == before[k]);
                }
            }
        }
        r
    }

    /// Forgets what is known of the controller with index `i`, whose
    /// connection was lost: its bus is empty again, and its devices have no
    /// routes any more.
    pub fn on_closed(&mut self, i: usize)
        requires
            i < old(self)@.buses.len(),
            old(self)@.wf(),
        ensures
            final(self)@.wf(),
            final(self)@.buses == old(self)@.buses.update(i as int, BusView::empty()),
            final(self)@.routes == cleared(old(self)@.routes, old(self)@.buses[i as int].bus_id()),
    {
        let ghost before = self@.buses;
        self.routes.clear_bus(self.buses[i].contno as usize);
        self.buses[i] = Bus::new();
        proof {
            assert(self@.buses =~= before.update(i as int, BusView::empty()));
            assert forall|k: int| 0 <= k < self@.buses.len() implies (#[trigger] self@.buses[k]).wf() by {
                if k != i {
                    assert(self@.buses[k] == before[k]);
                }
            }
        }
    }

    /// The index of the bus whose controller has the number `contno`.
    fn find_bus(&self, contno: usize) -> (r: Option<usize>)
        ensures
            r == bus_of(self@.buses, contno, self@.buses.len()),
            r matches Some(i) ==> i < self@.buses.len(),
    {
        let mut k: usize = 0;
        while k < self.buses.len()
            invariant
                k <= self.buses@.len(),
                bus_of(self@.buses, contno, k as nat) is None,
            decreases self.buses@.len() - k,
        {
            if self.buses[k].contno as usize == contno {
                assert(bus_of(self@.buses, contno, (k + 1) as nat) == Some(k));
                proof {
                    Self::lemma_bus_found(self@.buses, contno, (k + 1) as nat, self@.buses.len());
                }
                return Some(k);
            }
            k += 1;
        }
        None
    }

    proof fn lemma_bus_found(buses: Seq<BusView>, contno: usize, n: nat, m: nat)
        requires
            n <= m <= buses.len(),
            bus_of(buses, contno, n) is Some,
        ensures
            bus_of(buses, contno, m) == bus_of(buses, contno, n),
        decreases m - n,
    {
        if n < m {
            Self::lemma_bus_found(buses, contno, n, (m - 1) as nat);
        }
    }

    /// Hands a publication to one recipient.
    fn deliver(&self, msg: &MqttMsg, id: Id, out: &mut Routed)
        requires
            msg is Pub,
        ensures
            final(out)@ == old(out)@.plus(delivered(self@.buses, msg@->Pub_payload, id)),
    {
        let ghost before = out@;
        let ghost added = delivered(self@.buses, msg@->Pub_payload, id);
        match self.find_bus(id.0.bus) {
            Some(i) => {
                if id.0.slot < self.buses[i].devices.len() {
                    match self.buses[i].devices[id.0.slot].handle_mqtt(msg, id.1) {
                        Ok(t) => {
                            let mut t = t;
                            let ghost cmds = t.ow.deep_view();
                            let ghost msgs = t.mqtt.deep_view();
                            assert(added == RoutedView::of(i, Ok(t@)));
                            out.mqtt.append(&mut t.mqtt);
                            assert(out@.mqtt =~= before.mqtt + msgs);
                            let mut k: usize = 0;
                            assert(cmds.take(0) =~= Seq::<Seq<char>>::empty());
                            assert(before.ow + cmds.take(0).map_values(|c: Seq<char>| (i, c))
                                =~= before.ow);
                            while k < t.ow.len()
                                invariant
                                    k <= t.ow@.len(),
                                    cmds == t.ow.deep_view(),
                                    out@.mqtt == before.mqtt + added.mqtt,
                                    out@.dropped == before.dropped,
                                    out@.ow == before.ow + cmds.take(k as int).map_values(
                                        |c: Seq<char>| (i, c),
                                    ),
                                decreases t.ow@.len() - k,
                            {
                                let c = t.ow[k].clone();
                                let ghost ow = out.ow.deep_view();
                                let ghost entry = (i, c@);
                                out.ow.push((i, c));
                                assert(out.ow.deep_view() =~= ow.push(entry));
                                assert(cmds.take(k + 1).map_values(|c: Seq<char>| (i, c))
                                    =~= cmds.take(k as int).map_values(|c: Seq<char>| (i, c)).push(
                                    entry,
                                ));
                                k += 1;
                            }
                            assert(cmds.take(cmds.len() as int) =~= cmds);
                            assert(out@.dropped =~= before.dropped + added.dropped);
                            assert(out@.ow =~= before.ow + added.ow);
                        },
                        Err(e) => {
                            let ghost dropped = out@.dropped;
                            out.dropped.push(e);
                            assert(out@.dropped =~= dropped.push(e@));
                            assert(added == RoutedView::of(i, Err(e@)));
                            assert(out@.dropped =~= before.dropped + added.dropped);
                            assert(out@.mqtt =~= before.mqtt + added.mqtt);
                            assert(out@.ow =~= before.ow + added.ow);
                        },
                    }
                } else {
                    assert(out@.mqtt =~= before.mqtt + added.mqtt);
                    assert(out@.ow =~= before.ow + added.ow);
                    assert(out@.dropped =~= before.dropped + added.dropped);
                }
            },
            None => {
                assert(out@.mqtt =~= before.mqtt + added.mqtt);
                assert(out@.ow =~= before.ow + added.ow);
                assert(out@.dropped =~= before.dropped + added.dropped);
            },
        }
    }

    /// Takes a message of the broker session. A publication on a topic for
    /// which a device registered, by that very topic, is handed to that
    /// device, and what the device answers stands in the result; its
    /// commands are bound for the bus of its own controller. Only a topic
    /// that begins with `$` reaches nobody.
    pub fn on_mqtt(&self, msg: &MqttMsg) -> (r: Routed)
        ensures
            r@ == self@.answer(msg@),
            msg@ matches MqttMsgView::Pub { topic, payload, .. } ==> forall|i: int, k: int|
                0 <= i < self@.routes.len() && 0 <= k < self@.routes[i].1.len()
                    && self@.routes[i].0 == topic && !reserved(topic) ==> served(
                    self@.buses,
                    payload,
                    #[trigger] self@.routes[i].1[k],
                    r@,
                ),
    {
        let mut out = Routed { mqtt: Vec::new(), ow: Vec::new(), dropped: Vec::new() };
        assert(out@.mqtt =~= Seq::empty() && out@.ow =~= Seq::empty() && out@.dropped
            =~= Seq::empty());
        match msg {
            MqttMsg::Pub { topic, payload, .. } => {
                let ids = self.routes.lookup(topic.as_str());
                let mut k: usize = 0;
                assert(ids@.take(0) =~= Seq::<Id>::empty());
                while k < ids.len()
                    invariant
                        k <= ids@.len(),
                        msg is Pub,
                        msg@->Pub_payload == payload@,
                        out@ == routed(self@.buses, payload@, ids@.take(k as int)),
                    decreases ids@.len() - k,
                {
                    proof {
                        assert(ids@.take(k + 1).drop_last() =~= ids@.take(k as int));
                        assert(ids@.take(k + 1).last() == ids@[k as int]);
                    }
                    self.deliver(msg, ids[k], &mut out);
                    k += 1;
                }
                assert(ids@.take(ids@.len() as int) =~= ids@);
                proof {
                    assert forall|i: int, k: int|
                        0 <= i < self@.routes.len() && 0 <= k < self@.routes[i].1.len()
                            && self@.routes[i].0 == topic@ && !reserved(topic@) implies served(
                        self@.buses,
                        payload@,
                        #[trigger] self@.routes[i].1[k],
                        out@,
                    ) by {
                        let id = self@.routes[i].1[k];
                        assert(ids@.contains(id));
                        let n = choose|n: int| 0 <= n < ids@.len() && ids@[n] == id;
                        law_every_recipient_is_served(self@.buses, payload@, ids@, n);
                    }
                }
                out
            },
            MqttMsg::Reconnected => {
                out.mqtt = self.routes.subscriptions();
                out
            },
            MqttMsg::Sub { .. } => out,
        }
    }
}

} // verus!
