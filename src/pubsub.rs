//! The topic registry of the pub/sub broadcaster.
//!
//! The registry maps each topic name to the connections subscribed to it, in
//! the order they subscribed. A topic with no subscriber is never kept.

use vstd::prelude::*;

use crate::seq_facts::{keys_unique, lemma_filter_keeps, lemma_filter_unique};
use crate::text::str_equal;

verus! {

/// A topic as the registry sees it: its name and its subscribers.
pub type TopicView = (Seq<char>, Seq<u128>);

/// The registry's contents: topic name to subscribing connections.
pub type Registry = Map<Seq<char>, Seq<u128>>;

/// Every topic kept has at least one subscriber, and none twice.
pub open spec fn registry_invariant(m: Registry) -> bool {
    forall|t: Seq<char>| #[trigger] m.contains_key(t) ==> m[t].len() > 0 && m[t].no_duplicates()
}

/// Accepts every connection but `conn`.
pub open spec fn other_than(conn: u128) -> spec_fn(u128) -> bool {
    |x: u128| x != conn
}

/// The connections of `s` other than `conn`, in order.
pub open spec fn without(s: Seq<u128>, conn: u128) -> Seq<u128> {
    s.filter(other_than(conn))
}

/// The registry after `conn` subscribed to `topic`; subscribing twice changes nothing.
pub open spec fn subscribed(m: Registry, conn: u128, topic: Seq<char>) -> Registry {
    if m.contains_key(topic) {
        if m[topic].contains(conn) {
            m
        } else {
            m.insert(topic, m[topic].push(conn))
        }
    } else {
        m.insert(topic, seq![conn])
    }
}

/// The registry after `conn` cancelled its subscription to `topic`; a topic
/// left without subscribers is removed.
pub open spec fn cancelled(m: Registry, conn: u128, topic: Seq<char>) -> Registry {
    if m.contains_key(topic) {
        if without(m[topic], conn).len() == 0 {
            m.remove(topic)
        } else {
            m.insert(topic, without(m[topic], conn))
        }
    } else {
        m
    }
}

/// The registry after `conn` disconnected: it leaves every topic, and the
/// topics left without subscribers are removed.
pub open spec fn disconnected(m: Registry, conn: u128) -> Registry {
    Map::new(
        |t: Seq<char>| m.contains_key(t) && without(m[t], conn).len() > 0,
        |t: Seq<char>| without(m[t], conn),
    )
}

/// The connections a message published to `topic` goes to.
pub open spec fn recipients(m: Registry, topic: Seq<char>) -> Seq<u128> {
    if m.contains_key(topic) {
        m[topic]
    } else {
        Seq::empty()
    }
}

/// No two topics share a name.
pub open spec fn names_unique(ts: Seq<TopicView>) -> bool {
    forall|i: int, j: int| 0 <= i < j < ts.len() ==> ts[i].0 != ts[j].0
}

/// The registry that a list of topics stands for.
pub open spec fn topic_map(ts: Seq<TopicView>) -> Registry
    decreases ts.len(),
{
    if ts.len() == 0 {
        Map::empty()
    } else {
        topic_map(ts.drop_last()).insert(ts.last().0, ts.last().1)
    }
}

/// With unique names, the registry holds exactly the listed topics.
proof fn lemma_topic_map(ts: Seq<TopicView>)
    requires
        names_unique(ts),
    ensures
        forall|k: Seq<char>| #[trigger]
            topic_map(ts).contains_key(k) <==> exists|i: int| 0 <= i < ts.len() && ts[i].0 == k,
        forall|i: int| 0 <= i < ts.len() ==> topic_map(ts)[#[trigger] ts[i].0] == ts[i].1,
    decreases ts.len(),
{
    if ts.len() > 0 {
        let prefix = ts.drop_last();
        let last = ts.last();
        assert(names_unique(prefix)) by {
            assert forall|i: int, j: int| 0 <= i < j < prefix.len() implies prefix[i].0
                != prefix[j].0 by {
                assert(prefix[i] == ts[i] && prefix[j] == ts[j]);
            }
        }
        lemma_topic_map(prefix);
        assert forall|k: Seq<char>| #[trigger]
            topic_map(ts).contains_key(k) <==> exists|i: int| 0 <= i < ts.len() && ts[i].0 == k by {
            if k == last.0 {
                assert(ts[ts.len() - 1].0 == k);
            } else if topic_map(ts).contains_key(k) {
                assert(topic_map(prefix).contains_key(k));
                let i = choose|i: int| 0 <= i < prefix.len() && prefix[i].0 == k;
                assert(ts[i] == prefix[i]);
            } else if exists|i: int| 0 <= i < ts.len() && ts[i].0 == k {
                let i = choose|i: int| 0 <= i < ts.len() && ts[i].0 == k;
                assert(prefix[i] == ts[i]);
                assert(topic_map(prefix).contains_key(k));
            }
        }
        assert forall|i: int| 0 <= i < ts.len() implies topic_map(ts)[#[trigger] ts[i].0]
            == ts[i].1 by {
            if i < ts.len() - 1 {
                assert(prefix[i] == ts[i]);
                assert(ts[i].0 != last.0);
            }
        }
    }
}

/// Replacing the subscribers of one topic replaces them in the registry.
proof fn lemma_topic_map_update(ts: Seq<TopicView>, k: int, subs: Seq<u128>)
    requires
        names_unique(ts),
        0 <= k < ts.len(),
    ensures
        names_unique(ts.update(k, (ts[k].0, subs))),
        topic_map(ts.update(k, (ts[k].0, subs))) == topic_map(ts).insert(ts[k].0, subs),
{
    let after = ts.update(k, (ts[k].0, subs));
    let m = topic_map(ts);
    assert(names_unique(after)) by {
        assert forall|i: int, j: int| 0 <= i < j < after.len() implies after[i].0 != after[j].0 by {
            assert(ts[i].0 == after[i].0 && ts[j].0 == after[j].0);
        }
    }
    lemma_topic_map(ts);
    lemma_topic_map(after);
    assert(topic_map(after) =~= m.insert(ts[k].0, subs)) by {
        assert forall|t: Seq<char>| #[trigger] topic_map(after).contains_key(t) == m.insert(
            ts[k].0,
            subs,
        ).contains_key(t) by {
            if topic_map(after).contains_key(t) {
                let i = choose|i: int| 0 <= i < after.len() && after[i].0 == t;
                assert(ts[i].0 == t);
            }
            if m.contains_key(t) {
                let i = choose|i: int| 0 <= i < ts.len() && ts[i].0 == t;
                assert(after[i].0 == t);
            }
        }
        assert forall|t: Seq<char>| #[trigger] topic_map(after).contains_key(t) implies topic_map(
            after,
        )[t] == m.insert(ts[k].0, subs)[t] by {
            let i = choose|i: int| 0 <= i < after.len() && after[i].0 == t;
            assert(topic_map(after)[after[i].0] == after[i].1);
            if i != k {
                assert(ts[i] == after[i]);
            }
        }
    }
}

/// Dropping one topic from the list drops it from the registry.
proof fn lemma_topic_map_remove(ts: Seq<TopicView>, k: int)
    requires
        names_unique(ts),
        0 <= k < ts.len(),
    ensures
        names_unique(ts.remove(k)),
        topic_map(ts.remove(k)) == topic_map(ts).remove(ts[k].0),
{
    let after = ts.remove(k);
    let m = topic_map(ts);
    assert forall|i: int| 0 <= i < after.len() implies #[trigger] after[i] == (if i < k {
        ts[i]
    } else {
        ts[i + 1]
    }) by {}
    assert(names_unique(after)) by {
        assert forall|i: int, j: int| 0 <= i < j < after.len() implies after[i].0 != after[j].0 by {
            assert(after[i] == (if i < k { ts[i] } else { ts[i + 1] }));
            assert(after[j] == (if j < k { ts[j] } else { ts[j + 1] }));
        }
    }
    lemma_topic_map(ts);
    lemma_topic_map(after);
    assert(topic_map(after) =~= m.remove(ts[k].0)) by {
        assert forall|t: Seq<char>| #[trigger] topic_map(after).contains_key(t) == m.remove(
            ts[k].0,
        ).contains_key(t) by {
            if topic_map(after).contains_key(t) {
                let i = choose|i: int| 0 <= i < after.len() && after[i].0 == t;
                if i < k {
                    assert(ts[i].0 == t);
                } else {
                    assert(ts[i + 1].0 == t);
                }
            }
            if m.contains_key(t) && t != ts[k].0 {
                let i = choose|i: int| 0 <= i < ts.len() && ts[i].0 == t;
                if i < k {
                    assert(after[i].0 == t);
                } else {
                    assert(after[i - 1].0 == t);
                }
            }
        }
        assert forall|t: Seq<char>| #[trigger] topic_map(after).contains_key(t) implies topic_map(
            after,
        )[t] == m.remove(ts[k].0)[t] by {
            let i = choose|i: int| 0 <= i < after.len() && after[i].0 == t;
            assert(topic_map(after)[after[i].0] == after[i].1);
            if i < k {
                assert(m[ts[i].0] == ts[i].1);
            } else {
                assert(m[ts[i + 1].0] == ts[i + 1].1);
            }
        }
    }
}

/// A topic of the registry: its name and its subscribers, in the order they came.
pub struct Topic {
    pub topic: String,
    pub subscribers: Vec<u128>,
}

impl View for Topic {
    type V = TopicView;

    open spec fn view(&self) -> TopicView {
        (self.topic@, self.subscribers@)
    }
}

impl Topic {
    /// A topic without subscribers.
    pub fn new(topic: String) -> (r: Topic)
        ensures
            r.topic == topic,
            r.subscribers@ == Seq::<u128>::empty(),
    {
        Topic { topic, subscribers: Vec::new() }
    }
}

/// The views of a list of topics.
pub open spec fn topic_views(ts: Seq<Topic>) -> Seq<TopicView> {
    ts.map_values(|t: Topic| t@)
}

/// Whether `conn` is among `subs`.
fn contains_conn(subs: &Vec<u128>, conn: u128) -> (r: bool)
    ensures
        r == subs@.contains(conn),
{
    let mut i: usize = 0;
    while i < subs.len()
        invariant
            i <= subs@.len(),
            forall|j: int| 0 <= j < i ==> subs@[j] != conn,
        decreases subs@.len() - i,
    {
        if subs[i] == conn {
            return true;
        }
        i += 1;
    }
    false
}

/// A copy of a list of connections.
fn copy_conns(subs: &Vec<u128>) -> (r: Vec<u128>)
    ensures
        r@ == subs@,
{
    let mut out: Vec<u128> = Vec::new();
    let mut i: usize = 0;
    while i < subs.len()
        invariant
            i <= subs@.len(),
            out@ == subs@.take(i as int),
        decreases subs@.len() - i,
    {
        out.push(subs[i]);
        assert(subs@.take(i + 1) =~= subs@.take(i as int).push(subs@[i as int]));
        i += 1;
    }
    assert(subs@.take(i as int) =~= subs@);
    out
}

/// The connections of `subs` other than `conn`.
fn conns_without(subs: &Vec<u128>, conn: u128) -> (r: Vec<u128>)
    ensures
        r@ == without(subs@, conn),
{
    let ghost pred = other_than(conn);
    let mut out: Vec<u128> = Vec::new();
    let mut i: usize = 0;
    while i < subs.len()
        invariant
            i <= subs@.len(),
            pred == other_than(conn),
            out@ == subs@.take(i as int).filter(pred),
        decreases subs@.len() - i,
    {
        proof {
            assert(subs@.take(i + 1) =~= subs@.take(i as int).push(subs@[i as int]));
            subs@.take(i as int).lemma_filter_push(subs@[i as int], pred);
        }
        if subs[i] != conn {
            out.push(subs[i]);
        }
        i += 1;
    }
    assert(subs@.take(i as int) =~= subs@);
    out
}

/// A list without repeats keeps none after a filter.
proof fn lemma_without_no_duplicates(s: Seq<u128>, conn: u128)
    requires
        s.no_duplicates(),
    ensures
        without(s, conn).no_duplicates(),
        forall|x: u128| #[trigger] without(s, conn).contains(x) ==> s.contains(x) && x != conn,
{
    let key = |x: u128| x;
    assert(keys_unique(s, key));
    lemma_filter_unique(s, other_than(conn), key);
}

/// The shared registry of topics.
pub struct PubSubState {
    topics: Vec<Topic>,
}

impl View for PubSubState {
    type V = Registry;

    closed spec fn view(&self) -> Registry {
        topic_map(topic_views(self.topics@))
    }
}

impl PubSubState {
    /// The registry's internal invariant.
    pub closed spec fn well_formed(&self) -> bool {
        &&& names_unique(topic_views(self.topics@))
        &&& registry_invariant(self@)
    }

    /// A well-formed registry keeps no empty topic and no subscriber twice.
    pub proof fn lemma_well_formed(&self)
        requires
            self.well_formed(),
        ensures
            registry_invariant(self@),
    {
    }

    /// An empty registry.
    pub fn new() -> (r: PubSubState)
        ensures
            r.well_formed(),
            r@ == Registry::empty(),
    {
        let r = PubSubState { topics: Vec::new() };
        assert(topic_views(r.topics@) =~= Seq::<TopicView>::empty());
        r
    }

    /// The position of the topic named `topic`, if the registry has it.
    fn find_topic(&self, topic: &str) -> (r: Option<usize>)
        requires
            names_unique(topic_views(self.topics@)),
        ensures
            match r {
                Some(k) => k < self.topics@.len() && self.topics@[k as int].topic@ == topic@,
                None => !self@.contains_key(topic@),
            },
    {
        proof {
            lemma_topic_map(topic_views(self.topics@));
        }
        let mut i: usize = 0;
        while i < self.topics.len()
            invariant
                i <= self.topics@.len(),
                forall|j: int| 0 <= j < i ==> self.topics@[j].topic@ != topic@,
            decreases self.topics@.len() - i,
        {
            if str_equal(self.topics[i].topic.as_str(), topic) {
                return Some(i);
            }
            i += 1;
        }
        assert forall|j: int| 0 <= j < self.topics@.len() implies #[trigger] topic_views(
            self.topics@,
        )[j].0 != topic@ by {
            assert(topic_views(self.topics@)[j] == self.topics@[j]@);
        }
        None
    }

    /// The subscribers of `topic`, in the order they subscribed; none when
    /// the registry has no such topic.
    pub fn subscribers_of(&self, topic: &str) -> (r: Vec<u128>)
        requires
            self.well_formed(),
        ensures
            r@ == recipients(self@, topic@),
    {
        match self.find_topic(topic) {
            Some(k) => {
                proof {
                    lemma_topic_map(topic_views(self.topics@));
                    assert(topic_views(self.topics@)[k as int] == self.topics@[k as int]@);
                }
                copy_conns(&self.topics[k].subscribers)
            },
            None => Vec::new(),
        }
    }

    /// Subscribes `conn` to `topic`, creating the topic on first use.
    pub fn subscribe(&mut self, conn: u128, topic: &str)
        requires
            old(self).well_formed(),
        ensures
            final(self).well_formed(),
            final(self)@ == subscribed(old(self)@, conn, topic@),
    {
        let ghost before = topic_views(self.topics@);
        proof {
            lemma_topic_map(before);
        }
        match self.find_topic(topic) {
            Some(k) => {
                assert(before[k as int] == self.topics@[k as int]@);
                if !contains_conn(&self.topics[k].subscribers, conn) {
                    let mut subs = copy_conns(&self.topics[k].subscribers);
                    subs.push(conn);
                    let name = self.topics[k].topic.clone();
                    let ghost entry = (name@, subs@);
                    self.topics[k] = Topic { topic: name, subscribers: subs };
                    assert(topic_views(self.topics@) =~= before.update(k as int, entry));
                    proof {
                        lemma_topic_map_update(before, k as int, entry.1);
                        let m = topic_map(before);
                        assert(before[k as int].0 == topic@);
                        assert(m.contains_key(topic@));
                        assert(m[topic@] == before[k as int].1);
                        assert(subs@.no_duplicates()) by {
                            assert forall|i: int, j: int|
                                0 <= i < j < subs@.len() implies subs@[i] != subs@[j] by {
                                if j == subs@.len() - 1 {
                                    assert(m[topic@].contains(subs@[i]) ==> subs@[i] != conn);
                                    assert(subs@[i] == m[topic@][i]);
                                }
                            }
                        }
                    }
                }
            },
            None => {
                let mut subs: Vec<u128> = Vec::new();
                subs.push(conn);
                let ghost entry = (topic@, subs@);
                self.topics.push(Topic { topic: topic.to_owned(), subscribers: subs });
                let ghost after = topic_views(self.topics@);
                assert(after =~= before.push(entry));
                assert(names_unique(after)) by {
                    assert forall|i: int, j: int| 0 <= i < j < after.len() implies after[i].0
                        != after[j].0 by {
                        if j == after.len() - 1 {
                            assert(before[i].0 == after[i].0);
                        } else {
                            assert(before[i] == after[i] && before[j] == after[j]);
                        }
                    }
                }
                assert(subs@ =~= seq![conn]);
                assert(after.drop_last() =~= before);
                assert(topic_map(after) == topic_map(before).insert(topic@, seq![conn]));
            },
        }
    }

    /// Cancels the subscription of `conn` to `topic`; the topic is removed
    /// once no subscriber is left.
    pub fn cancel(&mut self, conn: u128, topic: &str)
        requires
            old(self).well_formed(),
        ensures
            final(self).well_formed(),
            final(self)@ == cancelled(old(self)@, conn, topic@),
    {
        let ghost before = topic_views(self.topics@);
        let ghost m = topic_map(before);
        proof {
            lemma_topic_map(before);
        }
        match self.find_topic(topic) {
            None => {},
            Some(k) => {
                assert(before[k as int] == self.topics@[k as int]@);
                assert(before[k as int].0 == topic@);
                assert(m.contains_key(topic@));
                assert(m[topic@] == before[k as int].1);
                let rest = conns_without(&self.topics[k].subscribers, conn);
                proof {
                    lemma_without_no_duplicates(m[topic@], conn);
                }
                if rest.len() == 0 {
                    self.topics.remove(k);
                    assert(topic_views(self.topics@) =~= before.remove(k as int));
                    proof {
                        lemma_topic_map_remove(before, k as int);
                    }
                } else {
                    let name = self.topics[k].topic.clone();
                    let ghost entry = (name@, rest@);
                    self.topics[k] = Topic { topic: name, subscribers: rest };
                    assert(topic_views(self.topics@) =~= before.update(k as int, entry));
                    proof {
                        lemma_topic_map_update(before, k as int, entry.1);
                    }
                }
            },
        }
    }

    /// Removes `conn` from every topic, and every topic it leaves empty.
    pub fn disconnect(&mut self, conn: u128)
        requires
            old(self).well_formed(),
        ensures
            final(self).well_formed(),
            final(self)@ == disconnected(old(self)@, conn),
    {
        let ghost before = topic_views(self.topics@);
        let ghost m = topic_map(before);
        let ghost mapped = before.map_values(leave(conn));
        let mut out: Vec<Topic> = Vec::new();
        let mut i: usize = 0;
        while i < self.topics.len()
            invariant
                before == topic_views(self.topics@),
                mapped == before.map_values(leave(conn)),
                i <= self.topics@.len(),
                topic_views(out@) == mapped.take(i as int).filter(occupied()),
            decreases self.topics@.len() - i,
        {
            proof {
                assert(mapped.take(i + 1) =~= mapped.take(i as int).push(mapped[i as int]));
                mapped.take(i as int).lemma_filter_push(mapped[i as int], occupied());
                assert(before[i as int] == self.topics@[i as int]@);
            }
            let rest = conns_without(&self.topics[i].subscribers, conn);
            if rest.len() > 0 {
                let name = self.topics[i].topic.clone();
                let ghost before_out = out@;
                out.push(Topic { topic: name, subscribers: rest });
                assert(topic_views(out@) =~= topic_views(before_out).push(mapped[i as int]));
            }
            i += 1;
        }
        assert(mapped.take(i as int) =~= mapped);
        self.topics = out;
        proof {
            let after = mapped.filter(occupied());
            let key = |t: TopicView| t.0;
            lemma_topic_map(before);
            assert(keys_unique(mapped, key)) by {
                assert forall|a: int, b: int| 0 <= a < b < mapped.len() implies key(mapped[a])
                    != key(mapped[b]) by {
                    assert(before[a].0 != before[b].0);
                }
            }
            lemma_filter_unique(mapped, occupied(), key);
            assert(names_unique(after)) by {
                assert forall|a: int, b: int| 0 <= a < b < after.len() implies after[a].0
                    != after[b].0 by {
                    assert(key(after[a]) != key(after[b]));
                }
            }
            lemma_topic_map(after);
            let goal = disconnected(m, conn);
            assert forall|t: Seq<char>| #[trigger] topic_map(after).contains_key(t)
                == goal.contains_key(t) by {
                if topic_map(after).contains_key(t) {
                    let j = choose|j: int| 0 <= j < after.len() && after[j].0 == t;
                    assert(after.contains(after[j]));
                    let a = choose|a: int| 0 <= a < mapped.len() && mapped[a] == after[j];
                    assert(before[a].0 == t);
                    assert(m[before[a].0] == before[a].1);
                }
                if goal.contains_key(t) {
                    let a = choose|a: int| 0 <= a < before.len() && before[a].0 == t;
                    assert(m[before[a].0] == before[a].1);
                    assert(mapped.contains(mapped[a]));
                    lemma_filter_keeps(mapped, occupied(), mapped[a]);
                    let j = choose|j: int| 0 <= j < after.len() && after[j] == mapped[a];
                    assert(after[j].0 == t);
                }
            }
            assert forall|t: Seq<char>| #[trigger] topic_map(after).contains_key(t) implies topic_map(
                after,
            )[t] == goal[t] by {
                let j = choose|j: int| 0 <= j < after.len() && after[j].0 == t;
                assert(topic_map(after)[after[j].0] == after[j].1);
                assert(after.contains(after[j]));
                let a = choose|a: int| 0 <= a < mapped.len() && mapped[a] == after[j];
                assert(before[a].0 == t);
                assert(m[before[a].0] == before[a].1);
            }
            assert(topic_map(after) =~= goal);
            assert forall|t: Seq<char>| #[trigger] goal.contains_key(t) implies goal[t].len() > 0
                && goal[t].no_duplicates() by {
                lemma_without_no_duplicates(m[t], conn);
            }
        }
    }
}

/// `conn` occurs exactly once in `s`.
pub open spec fn occurs_once(s: Seq<u128>, conn: u128) -> bool {
    exists|i: int|
        0 <= i < s.len() && s[i] == conn && forall|j: int|
            0 <= j < s.len() && #[trigger] s[j] == conn ==> j == i
}

/// Subscribing keeps every topic non-empty and free of repeated subscribers.
pub proof fn lemma_subscribe_keeps_invariant(m: Registry, conn: u128, topic: Seq<char>)
    requires
        registry_invariant(m),
    ensures
        registry_invariant(subscribed(m, conn, topic)),
{
    if m.contains_key(topic) && !m[topic].contains(conn) {
        let s = m[topic].push(conn);
        assert forall|i: int, j: int| 0 <= i < j < s.len() implies s[i] != s[j] by {
            if j == s.len() - 1 {
                assert(m[topic][i] == s[i]);
            } else {
                assert(m[topic][i] == s[i] && m[topic][j] == s[j]);
            }
        }
    }
    if !m.contains_key(topic) {
        assert(seq![conn].no_duplicates());
    }
}

/// Once a connection has subscribed to a topic, a message published there
/// goes to that connection exactly once.
pub proof fn lemma_subscriber_receives_once(m: Registry, conn: u128, topic: Seq<char>)
    requires
        registry_invariant(m),
    ensures
        occurs_once(recipients(subscribed(m, conn, topic), topic), conn),
{
    lemma_subscribe_keeps_invariant(m, conn, topic);
    let after = subscribed(m, conn, topic);
    let s = recipients(after, topic);
    assert(after.contains_key(topic));
    assert(s.no_duplicates());
    if m.contains_key(topic) && !m[topic].contains(conn) {
        assert(s[s.len() - 1] == conn);
    } else if !m.contains_key(topic) {
        assert(s[0] == conn);
    }
    assert(s.contains(conn));
    let i = choose|i: int| 0 <= i < s.len() && s[i] == conn;
    assert forall|j: int| 0 <= j < s.len() && #[trigger] s[j] == conn implies j == i by {}
}

/// After the last subscriber of a topic cancels, the registry no longer has
/// the topic: a message published there goes nowhere.
pub proof fn lemma_last_cancel_removes_topic(m: Registry, conn: u128, topic: Seq<char>)
    requires
        registry_invariant(m),
        m.contains_key(topic),
        forall|i: int| 0 <= i < m[topic].len() ==> m[topic][i] == conn,
    ensures
        !cancelled(m, conn, topic).contains_key(topic),
        recipients(cancelled(m, conn, topic), topic) == Seq::<u128>::empty(),
{
    m[topic].lemma_all_neg_filter_empty(other_than(conn));
}

/// After the last subscriber of a topic disconnects, the registry no longer
/// has the topic: a message published there goes nowhere.
pub proof fn lemma_last_disconnect_removes_topic(m: Registry, conn: u128, topic: Seq<char>)
    requires
        registry_invariant(m),
        m.contains_key(topic),
        forall|i: int| 0 <= i < m[topic].len() ==> m[topic][i] == conn,
    ensures
        !disconnected(m, conn).contains_key(topic),
        recipients(disconnected(m, conn), topic) == Seq::<u128>::empty(),
{
    m[topic].lemma_all_neg_filter_empty(other_than(conn));
}

/// With one connection subscribed to a topic and another to a different
/// topic, a message published to the first topic reaches the first
/// connection and never the second.
pub proof fn lemma_publish_reaches_only_its_topic(
    m: Registry,
    first: u128,
    second: u128,
    first_topic: Seq<char>,
    second_topic: Seq<char>,
)
    requires
        registry_invariant(m),
        first != second,
        first_topic != second_topic,
        !recipients(m, first_topic).contains(second),
    ensures
        recipients(
            subscribed(subscribed(m, first, first_topic), second, second_topic),
            first_topic,
        ).contains(first),
        !recipients(
            subscribed(subscribed(m, first, first_topic), second, second_topic),
            first_topic,
        ).contains(second),
{
    let m1 = subscribed(m, first, first_topic);
    let m2 = subscribed(m1, second, second_topic);
    assert(m2[first_topic] == m1[first_topic]);
    if m.contains_key(first_topic) && !m[first_topic].contains(first) {
        assert(m1[first_topic][m1[first_topic].len() - 1] == first);
        assert forall|i: int| 0 <= i < m1[first_topic].len() implies m1[first_topic][i]
            != second by {
            if i < m[first_topic].len() {
                assert(m1[first_topic][i] == m[first_topic][i]);
            }
        }
    } else if !m.contains_key(first_topic) {
        assert(m1[first_topic][0] == first);
    }
}

/// Leaves `conn` out of a topic's subscribers.
pub open spec fn leave(conn: u128) -> spec_fn(TopicView) -> TopicView {
    |t: TopicView| (t.0, without(t.1, conn))
}

/// Accepts a topic that still has subscribers.
pub open spec fn occupied() -> spec_fn(TopicView) -> bool {
    |t: TopicView| t.1.len() > 0
}

} // verus!
