//! Which device gets the messages of which MQTT topic.
use crate::mqtt::{filter_accepts, reserved, topic_matches, MqttMsg, MqttMsgView};
use crate::text::str_eq;
use vstd::prelude::*;
use vstd::string::*;

verus! {

/// What a device chose to tell its subscriptions apart.
pub type Token = i32;

/// Where a device lives: the bus and the slot within it.
#[derive(Debug, Clone, Copy, PartialEq, Eq, Structural)]
pub struct Locator {
    pub bus: usize,
    pub slot: usize,
}

/// A recipient: a device and the token that it registered.
pub type Id = (Locator, Token);

/// The recipients of one topic pattern.
pub struct Route {
    pub topic: String,
    pub ids: Vec<Id>,
}

/// The content of a [`Route`]: the pattern and its recipients, in the order in
/// which they registered.
pub type RouteView = (Seq<char>, Seq<Id>);

impl View for Route {
    type V = RouteView;

    open spec fn view(&self) -> RouteView {
        (self.topic@, self.ids@)
    }
}

impl DeepView for Route {
    type V = RouteView;

    open spec fn deep_view(&self) -> RouteView {
        self@
    }
}

/// The route table: topic patterns in the order in which they were first
/// registered, each with its recipients.
pub struct Routes {
    by_topic: Vec<Route>,
}

/// The patterns of a route table.
pub open spec fn topics(table: Seq<RouteView>) -> Seq<Seq<char>> {
    table.map_values(|r: RouteView| r.0)
}

/// Whether the table holds a pattern.
pub open spec fn knows(table: Seq<RouteView>, topic: Seq<char>) -> bool {
    exists|i: int| 0 <= i < table.len() && (#[trigger] table[i]).0 == topic
}

/// The table after a registration: the recipient joins those of its pattern,
/// or a new pattern is added at the end.
pub open spec fn with_registration(table: Seq<RouteView>, topic: Seq<char>, id: Id) -> Seq<
    RouteView,
>
    decreases table.len(),
{
    if table.len() == 0 {
        seq![(topic, seq![id])]
    } else if table[0].0 == topic {
        seq![(topic, table[0].1.push(id))] + table.drop_first()
    } else {
        seq![table[0]] + with_registration(table.drop_first(), topic, id)
    }
}

/// The recipients of a concrete topic: those of every pattern that accepts it,
/// pattern by pattern.
pub open spec fn recipients(table: Seq<RouteView>, topic: Seq<char>) -> Seq<Id>
    decreases table.len(),
{
    if table.len() == 0 {
        Seq::empty()
    } else {
        let rest = recipients(table.drop_last(), topic);
        if filter_accepts(table.last().0, topic) {
            rest + table.last().1
        } else {
            rest
        }
    }
}

/// One subscription for each pattern.
pub open spec fn subscription_msgs(table: Seq<RouteView>) -> Seq<MqttMsgView> {
    table.map_values(|r: RouteView| MqttMsgView::Sub { topic: r.0 })
}

/// The recipients that do not live on bus `bus`.
pub open spec fn without_bus(ids: Seq<Id>, bus: usize) -> Seq<Id> {
    ids.filter(|id: Id| id.0.bus != bus)
}

/// The table without the recipients on bus `bus`, and without the patterns
/// that have no other recipient.
pub open spec fn cleared(table: Seq<RouteView>, bus: usize) -> Seq<RouteView>
    decreases table.len(),
{
    if table.len() == 0 {
        Seq::empty()
    } else {
        let rest = cleared(table.drop_last(), bus);
        let ids = without_bus(table.last().1, bus);
        if ids.len() > 0 {
            rest.push((table.last().0, ids))
        } else {
            rest
        }
    }
}

/// A registration: a topic pattern and the recipient that registers for it.
pub type Registration = (Seq<char>, Id);

/// The table after a sequence of registrations.
pub open spec fn registered(table: Seq<RouteView>, regs: Seq<Registration>) -> Seq<RouteView>
    decreases regs.len(),
{
    if regs.len() == 0 {
        table
    } else {
        with_registration(registered(table, regs.drop_last()), regs.last().0, regs.last().1)
    }
}

/// The subscriptions that a sequence of registrations brings forth: one for
/// each pattern that the table did not hold when it was registered.
pub open spec fn new_subscriptions(table: Seq<RouteView>, regs: Seq<Registration>) -> Seq<
    MqttMsgView,
>
    decreases regs.len(),
{
    if regs.len() == 0 {
        Seq::empty()
    } else {
        let before = new_subscriptions(table, regs.drop_last());
        if knows(registered(table, regs.drop_last()), regs.last().0) {
            before
        } else {
            before.push(MqttMsgView::Sub { topic: regs.last().0 })
        }
    }
}

/// No pattern stands twice in the table.
pub open spec fn distinct(table: Seq<RouteView>) -> bool {
    forall|i: int, j: int|
        0 <= i < j < table.len() ==> (#[trigger] table[i]).0 != (#[trigger] table[j]).0
}

impl View for Routes {
    type V = Seq<RouteView>;

    closed spec fn view(&self) -> Seq<RouteView> {
        self.by_topic.deep_view()
    }
}

/// A registration keeps the patterns distinct, adds the pattern if and only
/// if it was not there, and changes no other pattern's recipients.
pub proof fn lemma_registration(table: Seq<RouteView>, topic: Seq<char>, id: Id)
    requires
        distinct(table),
    ensures
        distinct(with_registration(table, topic, id)),
        knows(table, topic) ==> topics(with_registration(table, topic, id)) == topics(table),
        !knows(table, topic) ==> with_registration(table, topic, id) == table.push(
            (topic, seq![id]),
        ),
        knows(with_registration(table, topic, id), topic),
        forall|t: Seq<char>|
            knows(table, t) ==> #[trigger] knows(with_registration(table, topic, id), t),
        forall|t: Seq<char>|
            #[trigger] knows(with_registration(table, topic, id), t) ==> knows(table, t) || t
                == topic,
    decreases table.len(),
{
    let after = with_registration(table, topic, id);
    if table.len() == 0 {
        assert(after =~= table.push((topic, seq![id])));
        assert(after[0].0 == topic);
        assert forall|t: Seq<char>| #[trigger] knows(after, t) implies t == topic by {
            let i = choose|i: int| 0 <= i < after.len() && (#[trigger] after[i]).0 == t;
        }
    } else if table[0].0 == topic {
        assert(after.len() == table.len());
        assert forall|i: int| 0 <= i < after.len() implies (#[trigger] after[i]).0
            == table[i].0 by {
            if i > 0 {
                assert(after[i] == table.drop_first()[i - 1]);
            }
        }
        assert(topics(after) =~= topics(table));
        assert(after[0].0 == topic);
        assert forall|t: Seq<char>| knows(table, t) implies #[trigger] knows(after, t) by {
            let i = choose|i: int| 0 <= i < table.len() && (#[trigger] table[i]).0 == t;
            assert(after[i].0 == t);
        }
        assert forall|t: Seq<char>| #[trigger] knows(after, t) implies knows(table, t) || t
            == topic by {
            let i = choose|i: int| 0 <= i < after.len() && (#[trigger] after[i]).0 == t;
            assert(table[i].0 == t);
        }
    } else {
        let tail = table.drop_first();
        let tail_after = with_registration(tail, topic, id);
        assert(distinct(tail)) by {
            assert forall|i: int, j: int| 0 <= i < j < tail.len() implies (#[trigger] tail[i]).0 != (
            #[trigger] tail[j]).0 by {
                assert(tail[i] == table[i + 1]);
                assert(tail[j] == table[j + 1]);
            }
        }
        lemma_registration(tail, topic, id);
        assert forall|t: Seq<char>| knows(tail, t) implies knows(table, t) by {
            let i = choose|i: int| 0 <= i < tail.len() && (#[trigger] tail[i]).0 == t;
            assert(table[i + 1].0 == t);
        }
        assert forall|t: Seq<char>| knows(table, t) && t != table[0].0 implies knows(tail, t) by {
            let i = choose|i: int| 0 <= i < table.len() && (#[trigger] table[i]).0 == t;
            assert(tail[i - 1].0 == t);
        }
        assert(!knows(tail, table[0].0)) by {
            if knows(tail, table[0].0) {
                let i = choose|i: int|
                    0 <= i < tail.len() && (#[trigger] tail[i]).0 == table[0].0;
                assert(tail[i] == table[i + 1]);
            }
        }
        assert forall|i: int| 1 <= i < after.len() implies #[trigger] after[i] == tail_after[i
            - 1] by {}
        assert(after[0] == table[0]);
        assert forall|t: Seq<char>| knows(tail_after, t) implies #[trigger] knows(after, t) by {
            let i = choose|i: int| 0 <= i < tail_after.len() && (#[trigger] tail_after[i]).0 == t;
            assert(after[i + 1].0 == t);
        }
        assert forall|t: Seq<char>| #[trigger] knows(after, t) implies t == table[0].0 || knows(
            tail_after,
            t,
        ) by {
            let i = choose|i: int| 0 <= i < after.len() && (#[trigger] after[i]).0 == t;
            if i > 0 {
                assert(tail_after[i - 1].0 == t);
            }
        }
        assert(distinct(after)) by {
            assert forall|i: int, j: int| 0 <= i < j < after.len() implies (#[trigger] after[i]).0
                != (#[trigger] after[j]).0 by {
                if i == 0 {
                    if after[j].0 == table[0].0 {
                        assert(tail_after[j - 1].0 == table[0].0);
                        assert(knows(tail_after, table[0].0));
                    }
                } else {
                    assert(after[i] == tail_after[i - 1]);
                    assert(after[j] == tail_after[j - 1]);
                }
            }
        }
        if knows(table, topic) {
            assert(knows(tail, topic));
            assert(topics(after) =~= topics(table)) by {
                assert(topics(tail_after) == topics(tail));
                assert forall|i: int| 0 <= i < after.len() implies topics(after)[i] == topics(
                    table,
                )[i] by {
                    if i > 0 {
                        assert(topics(tail_after)[i - 1] == topics(tail)[i - 1]);
                    }
                }
            }
        } else {
            assert(!knows(tail, topic));
            assert(after =~= table.push((topic, seq![id])));
        }
        assert(knows(after, topic));
        assert forall|t: Seq<char>| knows(table, t) implies #[trigger] knows(after, t) by {
            if t == table[0].0 {
                assert(after[0].0 == t);
            }
        }
    }
}

/// After a registration the recipient stands in the table, under its
/// pattern. `Routes::lookup` finds whoever stands under the topic itself.
pub proof fn law_registration_is_there(table: Seq<RouteView>, topic: Seq<char>, id: Id)
    ensures
        exists|i: int, k: int|
            0 <= i < with_registration(table, topic, id).len() && 0 <= k < (
            #[trigger] with_registration(table, topic, id)[i]).1.len() && with_registration(
                table,
                topic,
                id,
            )[i].0 == topic && #[trigger] with_registration(table, topic, id)[i].1[k] == id,
    decreases table.len(),
{
    let after = with_registration(table, topic, id);
    if table.len() == 0 {
        assert(after[0].0 == topic && after[0].1[0] == id);
    } else if table[0].0 == topic {
        assert(after[0].0 == topic && after[0].1[table[0].1.len() as int] == id);
    } else {
        law_registration_is_there(table.drop_first(), topic, id);
        let tail = with_registration(table.drop_first(), topic, id);
        let (i, k) = choose|i: int, k: int|
            0 <= i < tail.len() && 0 <= k < (#[trigger] tail[i]).1.len() && tail[i].0 == topic
                && #[trigger] tail[i].1[k] == id;
        assert(after[i + 1] == tail[i]);
        assert(after[i + 1].0 == topic && after[i + 1].1[k] == id);
    }
}

/// The patterns that a sequence of registrations names.
pub open spec fn registered_topics(regs: Seq<Registration>) -> Seq<Seq<char>> {
    regs.map_values(|r: Registration| r.0)
}

/// Registrations on an empty table leave a table without a pattern twice,
/// which holds exactly the patterns that were registered.
pub proof fn lemma_registered(regs: Seq<Registration>)
    ensures
        distinct(registered(Seq::empty(), regs)),
        forall|t: Seq<char>|
            #[trigger] knows(registered(Seq::empty(), regs), t) <==> registered_topics(
                regs,
            ).contains(t),
    decreases regs.len(),
{
    let table = registered(Seq::empty(), regs);
    if regs.len() == 0 {
        assert forall|t: Seq<char>| #[trigger] knows(table, t) <==> registered_topics(
            regs,
        ).contains(t) by {}
    } else {
        let head = regs.drop_last();
        let before = registered(Seq::empty(), head);
        lemma_registered(head);
        lemma_registration(before, regs.last().0, regs.last().1);
        assert forall|t: Seq<char>| #[trigger] knows(table, t) <==> registered_topics(
            regs,
        ).contains(t) by {
            if knows(table, t) {
                if t == regs.last().0 {
                    assert(registered_topics(regs)[regs.len() - 1] == t);
                } else {
                    assert(knows(before, t));
                    let i = choose|i: int|
                        0 <= i < head.len() && registered_topics(head)[i] == t;
                    assert(registered_topics(regs)[i] == t);
                }
            }
            if registered_topics(regs).contains(t) {
                let i = choose|i: int|
                    0 <= i < regs.len() && registered_topics(regs)[i] == t;
                if i < head.len() {
                    assert(registered_topics(head)[i] == t);
                    assert(knows(before, t));
                }
            }
        }
    }
}

/// After any registrations on an empty table, in any order and with any
/// repetitions, the subscriptions to renew are all different, and there are
/// exactly as many of them as different patterns were registered.
pub proof fn law_one_subscription_per_topic(regs: Seq<Registration>)
    ensures
        subscription_msgs(registered(Seq::empty(), regs)).no_duplicates(),
        subscription_msgs(registered(Seq::empty(), regs)).len() == registered_topics(
            regs,
        ).to_set().len(),
{
    let table = registered(Seq::empty(), regs);
    let subs = subscription_msgs(table);
    lemma_registered(regs);
    assert(subs.no_duplicates()) by {
        assert forall|i: int, j: int| 0 <= i < subs.len() && 0 <= j < subs.len() && i
            != j implies subs[i] != subs[j] by {
            if i < j {
                assert(table[i].0 != table[j].0);
            } else {
                assert(table[j].0 != table[i].0);
            }
        }
    }
    let names = topics(table);
    assert(names.no_duplicates()) by {
        assert forall|i: int, j: int| 0 <= i < names.len() && 0 <= j < names.len() && i
            != j implies names[i] != names[j] by {
            if i < j {
                assert(table[i].0 != table[j].0);
            } else {
                assert(table[j].0 != table[i].0);
            }
        }
    }
    names.unique_seq_to_set();
    assert(names.to_set() =~= registered_topics(regs).to_set()) by {
        assert forall|t: Seq<char>| names.to_set().contains(t) <==> registered_topics(
            regs,
        ).to_set().contains(t) by {
            if names.contains(t) {
                let i = choose|i: int| 0 <= i < names.len() && names[i] == t;
                assert(table[i].0 == t);
                assert(knows(table, t));
            }
            if knows(table, t) {
                let i = choose|i: int| 0 <= i < table.len() && (#[trigger] table[i]).0 == t;
                assert(names[i] == t);
            }
        }
    }
}

impl Routes {
    /// An empty table.
    pub fn new() -> (r: Self)
        ensures
            r@ == Seq::<RouteView>::empty(),
    {
        let r = Routes { by_topic: Vec::new() };
        assert(r@ =~= Seq::<RouteView>::empty());
        r
    }

    /// The number of patterns.
    pub fn len(&self) -> (n: usize)
        ensures
            n == self@.len(),
    {
        self.by_topic.len()
    }

    /// Adds a recipient to a topic pattern. Where the pattern is new, the
    /// subscription to forward to the broker comes back.
    pub fn register(&mut self, topic: String, locator: Locator, token: Token) -> (r: Option<MqttMsg>)
        ensures
            final(self)@ == with_registration(old(self)@, topic@, (locator, token)),
            match r {
                Some(m) => !knows(old(self)@, topic@) && m@ == (MqttMsgView::Sub { topic: topic@ }),
                None => knows(old(self)@, topic@),
            },
    {
        let mut i: usize = 0;
        let ghost table = self@;
        while i < self.by_topic.len()
            invariant
                i <= self.by_topic@.len(),
                self@ == table,
                table == old(self)@,
                forall|k: int| 0 <= k < i ==> (#[trigger] table[k]).0 != topic@,
            decreases self.by_topic@.len() - i,
        {
            if str_eq(self.by_topic[i].topic.as_str(), topic.as_str()) {
                let ghost routes = self.by_topic@;
                assert(table[i as int] == routes[i as int]@);
                let mut route = self.by_topic.remove(i);
                route.ids.push((locator, token));
                let ghost entry = route@;
                self.by_topic.insert(i, route);
                proof {
                    Self::lemma_found(table, topic@, (locator, token), i as int);
                    assert(self.by_topic@ =~= routes.update(i as int, route));
                    assert(entry == (topic@, table[i as int].1.push((locator, token))));
                    assert(self@ =~= table.update(i as int, entry)) by {
                        assert forall|k: int| 0 <= k < table.len() implies #[trigger] self@[k]
                            == table.update(i as int, entry)[k] by {
                            assert(self@[k] == self.by_topic@[k]@);
                            assert(table[k] == routes[k]@);
                        }
                    }
                    assert(table[i as int].0 == topic@);
                }
                return None;
            }
            i += 1;
        }
        proof {
            Self::lemma_not_found(table, topic@, (locator, token));
        }
        let mut ids: Vec<Id> = Vec::new();
        ids.push((locator, token));
        let m = MqttMsg::sub(topic.as_str());
        self.by_topic.push(Route { topic, ids });
        assert(self@ =~= table.push((topic@, seq![(locator, token)])));
        assert(!knows(table, topic@));
        Some(m)
    }

    proof fn lemma_found(table: Seq<RouteView>, topic: Seq<char>, id: Id, i: int)
        requires
            0 <= i < table.len(),
            table[i].0 == topic,
            forall|k: int| 0 <= k < i ==> (#[trigger] table[k]).0 != topic,
        ensures
            with_registration(table, topic, id) == table.update(i, (topic, table[i].1.push(id))),
        decreases i,
    {
        if i == 0 {
            assert(with_registration(table, topic, id) =~= table.update(
                0,
                (topic, table[0].1.push(id)),
            ));
        } else {
            let tail = table.drop_first();
            assert forall|k: int| 0 <= k < i - 1 implies (#[trigger] tail[k]).0 != topic by {
                assert(tail[k] == table[k + 1]);
            }
            assert(table[0].0 != topic);
            Self::lemma_found(tail, topic, id, i - 1);
            assert(with_registration(table, topic, id) =~= table.update(
                i,
                (topic, table[i].1.push(id)),
            ));
        }
    }

    proof fn lemma_not_found(table: Seq<RouteView>, topic: Seq<char>, id: Id)
        requires
            forall|k: int| 0 <= k < table.len() ==> (#[trigger] table[k]).0 != topic,
        ensures
            with_registration(table, topic, id) == table.push((topic, seq![id])),
        decreases table.len(),
    {
        if table.len() == 0 {
            assert(with_registration(table, topic, id) =~= table.push((topic, seq![id])));
        } else {
            let tail = table.drop_first();
            assert forall|k: int| 0 <= k < tail.len() implies (#[trigger] tail[k]).0 != topic by {
                assert(tail[k] == table[k + 1]);
            }
            assert(table[0].0 != topic);
            Self::lemma_not_found(tail, topic, id);
            assert(with_registration(table, topic, id) =~= table.push((topic, seq![id])));
        }
    }

    /// The recipients of a concrete topic: those of every pattern that accepts
    /// it, by MQTT wildcard matching. Whoever registered for the topic itself
    /// is among them, unless the topic begins with `$`.
    pub fn lookup(&self, topic: &str) -> (r: Vec<Id>)
        ensures
            r@ == recipients(self@, topic@),
            forall|i: int, k: int|
                0 <= i < self@.len() && 0 <= k < self@[i].1.len() && self@[i].0 == topic@
                    && !reserved(topic@) ==> r@.contains(#[trigger] self@[i].1[k]),
    {
        let mut r: Vec<Id> = Vec::new();
        let mut i: usize = 0;
        assert(self@.take(0) =~= Seq::<RouteView>::empty());
        while i < self.by_topic.len()
            invariant
                i <= self.by_topic@.len(),
                r@ == recipients(self@.take(i as int), topic@),
                forall|j: int, k: int|
                    0 <= j < i && 0 <= k < self@[j].1.len() && self@[j].0 == topic@ && !reserved(
                        topic@,
                    ) ==> r@.contains(#[trigger] self@[j].1[k]),
            decreases self.by_topic@.len() - i,
        {
            let route = &self.by_topic[i];
            proof {
                assert(self@.take(i + 1).drop_last() =~= self@.take(i as int));
                assert(self@.take(i + 1).last() == route@);
                assert(self@[i as int] == route@);
            }
            let ghost before = r@;
            if topic_matches(topic, route.topic.as_str()) {
                let mut k: usize = 0;
                while k < route.ids.len()
                    invariant
                        k <= route.ids@.len(),
                        r@ == before + route.ids@.take(k as int),
                    decreases route.ids@.len() - k,
                {
                    r.push(route.ids[k]);
                    assert(route.ids@.take(k + 1) =~= route.ids@.take(k as int).push(
                        route.ids@[k as int],
                    ));
                    k += 1;
                }
                assert(route.ids@.take(route.ids@.len() as int) =~= route.ids@);
            }
            proof {
                assert forall|j: int, k: int|
                    0 <= j < i + 1 && 0 <= k < self@[j].1.len() && self@[j].0 == topic@
                        && !reserved(topic@) implies r@.contains(#[trigger] self@[j].1[k]) by {
                    if j < i {
                        let at = choose|at: int| 0 <= at < before.len() && before[at] == self@[j].1[k];
                        assert(r@[at] == before[at]);
                    } else {
                        assert(r@ == before + route.ids@);
                        assert(r@[before.len() + k] == route.ids@[k]);
                    }
                }
            }
            i += 1;
        }
        assert(self@.take(self@.len() as int) =~= self@);
        r
    }

    /// One subscription for each pattern, to renew them at the broker.
    pub fn subscriptions(&self) -> (r: Vec<MqttMsg>)
        ensures
            r.deep_view() == subscription_msgs(self@),
    {
        let mut r: Vec<MqttMsg> = Vec::new();
        let mut i: usize = 0;
        while i < self.by_topic.len()
            invariant
                i <= self.by_topic@.len(),
                r.deep_view() == subscription_msgs(self@.take(i as int)),
            decreases self.by_topic@.len() - i,
        {
            let m = MqttMsg::sub(self.by_topic[i].topic.as_str());
            let ghost before = r.deep_view();
            r.push(m);
            assert(r.deep_view() =~= before.push(m@));
            assert(subscription_msgs(self@.take(i + 1)) =~= subscription_msgs(
                self@.take(i as int),
            ).push(m@));
            i += 1;
        }
        assert(self@.take(self@.len() as int) =~= self@);
        r
    }

    /// Drops every pattern.
    pub fn clear(&mut self)
        ensures
            final(self)@ == Seq::<RouteView>::empty(),
    {
        self.by_topic.clear();
        assert(self@ =~= Seq::<RouteView>::empty());
    }

    /// Drops the recipients on one bus, and the patterns that no other
    /// recipient holds.
    pub fn clear_bus(&mut self, bus: usize)
        ensures
            final(self)@ == cleared(old(self)@, bus),
    {
        let mut kept: Vec<Route> = Vec::new();
        let ghost table = self@;
        while self.by_topic.len() > 0
            invariant
                kept.deep_view().len() >= 0,
                cleared(table, bus) == cleared(self@, bus) + kept.deep_view().reverse(),
            decreases self.by_topic@.len(),
        {
            let ghost now = self@;
            let route = self.by_topic.pop().unwrap();
            assert(self@ =~= now.drop_last());
            assert(route@ == now.last());
            let mut ids: Vec<Id> = Vec::new();
            let mut k: usize = 0;
            assert(route.ids@.take(0) =~= Seq::<Id>::empty());
            while k < route.ids.len()
                invariant
                    k <= route.ids@.len(),
                    ids@ == without_bus(route.ids@.take(k as int), bus),
                decreases route.ids@.len() - k,
            {
                let id = route.ids[k];
                proof {
                    let pre = route.ids@.take(k as int);
                    assert(route.ids@.take(k + 1) =~= pre.push(id));
                    Self::lemma_filter_push(pre, id, bus);
                }
                if id.0.bus != bus {
                    ids.push(id);
                }
                k += 1;
            }
            assert(route.ids@.take(route.ids@.len() as int) =~= route.ids@);
            let ghost before = kept.deep_view();
            if ids.len() > 0 {
                let ghost entry = (route.topic@, ids@);
                kept.push(Route { topic: route.topic, ids });
                assert(kept.deep_view() =~= before.push(entry));
                assert(kept.deep_view().reverse() =~= seq![entry] + before.reverse());
                assert(cleared(now, bus) + before.reverse() =~= cleared(self@, bus)
                    + kept.deep_view().reverse());
            }
        }
        assert(cleared(self@, bus) =~= Seq::<RouteView>::empty());
        let ghost all = kept.deep_view();
        while kept.len() > 0
            invariant
                self@ + kept.deep_view().reverse() == all.reverse(),
            decreases kept@.len(),
        {
            let ghost before = kept.deep_view();
            let ghost mine = self@;
            let route = kept.pop().unwrap();
            assert(kept.deep_view() =~= before.drop_last());
            assert(before.reverse() =~= seq![route@] + before.drop_last().reverse());
            self.by_topic.push(route);
            assert(self@ =~= mine.push(route@));
            assert(self@ + kept.deep_view().reverse() =~= mine + before.reverse());
        }
        assert(kept.deep_view().reverse() =~= Seq::<RouteView>::empty());
        assert(self@ =~= self@ + Seq::<RouteView>::empty());
    }

    proof fn lemma_filter_push(ids: Seq<Id>, id: Id, bus: usize)
        ensures
            without_bus(ids.push(id), bus) == if id.0.bus != bus {
                without_bus(ids, bus).push(id)
            } else {
                without_bus(ids, bus)
            },
    {
        reveal(Seq::filter);
        assert(ids.push(id).drop_last() =~= ids);
    }
}

impl Default for Routes {
    fn default() -> (r: Self)
        ensures
            r@ == Seq::<RouteView>::empty(),
    {
        Routes::new()
    }
}

} // verus!
