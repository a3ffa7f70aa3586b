//! The in-process event bus: published events are kept in a log bounded to
//! the most recent ones, topics get a channel when first subscribed to, and
//! each topic keeps its subscribers without repetition. Delivering an event
//! on a topic's channel is done by the caller.
use vstd::prelude::*;
use dashmap::DashMap;
use crate::text::{chars_of, eq};
use crate::config::text;
use crate::gateway::transform::copy_strings;

verus! {

/// A published event; `data` is its JSON payload as text.
pub struct Event {
    pub id: String,
    pub topic: String,
    pub source: String,
    pub data: String,
    pub timestamp: u64,
}

/// The event bus.
pub struct EventBus {
    topics: Vec<String>,
    subscriptions: DashMap<String, Vec<String>>,
    log: Vec<Event>,
    max_log_size: usize,
}

/// The entries of a map of subscriptions: each topic's subscriber ids, by
/// text.
pub uninterp spec fn subscription_map(m: DashMap<String, Vec<String>>) -> Map<Seq<char>, Seq<Seq<char>>>;

/// `DashMap::new`: no subscriptions.
#[verifier::external_body]
fn subscriptions_new() -> (r: DashMap<String, Vec<String>>)
    ensures
        subscription_map(r).dom() == Set::<Seq<char>>::empty(),
{
    DashMap::new()
}

/// `DashMap::get` by the topic's text (`String` borrows as `str`, and two
/// strings are the same key exactly when their texts are equal), the list
/// cloned out of the guard it gives (`Vec<String>::clone` copies each text
/// in order).
#[verifier::external_body]
fn subscriptions_get(m: &DashMap<String, Vec<String>>, topic: &str) -> (r: Option<Vec<String>>)
    ensures
        r is Some == subscription_map(*m).contains_key(topic@),
        r matches Some(v) ==> v@.map_values(|s: String| s@) == subscription_map(*m)[topic@],
{
    match m.get(topic) {
        Some(v) => Some(v.value().clone()),
        None => None,
    }
}

/// `DashMap::remove` by the topic's text: its list is taken out and given
/// back, the others kept.
#[verifier::external_body]
fn subscriptions_remove(m: &mut DashMap<String, Vec<String>>, topic: &str) -> (r: Option<Vec<String>>)
    ensures
        r is Some == subscription_map(*old(m)).contains_key(topic@),
        r matches Some(v) ==> v@.map_values(|s: String| s@) == subscription_map(*old(m))[topic@],
        subscription_map(*final(m)) == subscription_map(*old(m)).remove(topic@),
{
    m.remove(topic).map(|p| p.1)
}

/// `DashMap::insert`: the list of `topic` is set, the others kept.
#[verifier::external_body]
fn subscriptions_insert(m: &mut DashMap<String, Vec<String>>, topic: String, list: Vec<String>)
    ensures
        subscription_map(*final(m)) == subscription_map(*old(m)).insert(topic@, list@.map_values(|s: String| s@)),
{
    m.insert(topic, list);
}

/// The most recent `max` events of a log.
pub open spec fn keep_recent(log: Seq<Event>, max: nat) -> Seq<Event> {
    if log.len() > max {
        log.subrange(log.len() - max, log.len() as int)
    } else {
        log
    }
}

/// The number of events on a topic.
pub open spec fn topic_count(log: Seq<Event>, topic: Seq<char>) -> nat
    decreases log.len(),
{
    if log.len() == 0 {
        0
    } else {
        topic_count(log.drop_last(), topic) + if log.last().topic@ == topic { 1nat } else { 0nat }
    }
}

proof fn lemma_topic_count_le(log: Seq<Event>, topic: Seq<char>)
    ensures
        topic_count(log, topic) <= log.len(),
    decreases log.len(),
{
    if log.len() > 0 {
        lemma_topic_count_le(log.drop_last(), topic);
    }
}

fn find_topic(counts: &Vec<(String, u64)>, topic: &[char]) -> (idx: Option<usize>)
    ensures
        match idx {
            Some(x) => x < counts@.len() && counts@[x as int].0@ == topic@,
            None => forall|i: int| 0 <= i < counts@.len() ==> #[trigger] counts@[i].0@ != topic@,
        },
{
    let mut p: usize = 0;
    while p < counts.len()
        invariant
            p <= counts@.len(),
            forall|i: int| 0 <= i < p ==> #[trigger] counts@[i].0@ != topic@,
        decreases counts@.len() - p,
    {
        if eq(chars_of(counts[p].0.as_str()).as_slice(), topic) {
            return Some(p);
        }
        p = p + 1;
    }
    None
}

fn string_of_chars(c: &[char]) -> (s: String)
    ensures
        s@ == c@,
{
    crate::text::string_of(c)
}

/// A topic has a row among the counts.
pub open spec fn listed(counts: Seq<(String, u64)>, topic: Seq<char>) -> bool {
    exists|i: int| 0 <= i < counts.len() && counts[i].0@ == topic
}

/// Two events hold the same values.
pub open spec fn same_event(a: Event, b: Event) -> bool {
    a.id@ == b.id@ && a.topic@ == b.topic@ && a.source@ == b.source@ && a.data@ == b.data@ && a.timestamp == b.timestamp
}

fn copy_event(e: &Event) -> (r: Event)
    ensures
        same_event(r, *e),
{
    Event { id: e.id.clone(), topic: e.topic.clone(), source: e.source.clone(), data: e.data.clone(), timestamp: e.timestamp }
}

impl EventBus {
    /// The log, oldest first.
    pub closed spec fn events(&self) -> Seq<Event> {
        self.log@
    }

    /// The topics that have a channel, in the order they got one.
    pub closed spec fn topic_list(&self) -> Seq<Seq<char>> {
        self.topics@.map_values(|t: String| t@)
    }

    /// Each subscribed topic's subscribers, in the order they came.
    pub closed spec fn subscribers(&self) -> Map<Seq<char>, Seq<Seq<char>>> {
        subscription_map(self.subscriptions)
    }

    /// How many events the log keeps.
    pub closed spec fn max_log(&self) -> nat {
        self.max_log_size as nat
    }

    /// An empty bus keeping at most `max_log_size` events.
    pub fn new(max_log_size: usize) -> (b: Self)
        ensures
            b.events() == Seq::<Event>::empty(),
            b.topic_list() == Seq::<Seq<char>>::empty(),
            b.subscribers() == Map::<Seq<char>, Seq<Seq<char>>>::empty(),
            b.max_log() == max_log_size,
    {
        let b = EventBus { topics: Vec::new(), subscriptions: subscriptions_new(), log: Vec::new(), max_log_size };
        assert(b.topic_list() =~= Seq::<Seq<char>>::empty());
        assert(b.subscribers() =~= Map::<Seq<char>, Seq<Seq<char>>>::empty());
        b
    }

    /// Logs an event with the given id at clock reading `now`, dropping the
    /// oldest events beyond the log's size; gives the id back.
    pub fn publish_at(&mut self, topic: &str, source: &str, data: String, id: String, now: u64) -> (r: String)
        ensures
            r == id,
            final(self).max_log() == old(self).max_log(),
            final(self).topic_list() == old(self).topic_list(),
            final(self).subscribers() == old(self).subscribers(),
            exists|e: Event|
                e.id == id && e.topic@ == topic@ && e.source@ == source@ && e.data == data && e.timestamp == now
                    && final(self).events() == #[trigger] keep_recent(old(self).events().push(e), old(self).max_log()),
    {
        let r = id.clone();
        let e = Event { id, topic: text(topic), source: text(source), data, timestamp: now };
        let ghost ev = e;
        self.log.push(e);
        let ghost full = self.log@;
        let ghost max = self.max_log_size as nat;
        while self.log.len() > self.max_log_size
            invariant
                self.max_log_size == max,
                full.len() >= 1,
                self.log@.len() <= full.len(),
                self.log@.len() >= max || full.len() <= max,
                full.len() > max ==> self.log@ == full.subrange(full.len() - self.log@.len(), full.len() as int),
                full.len() <= max ==> self.log@ == full,
                self.topics == old(self).topics,
                self.subscriptions == old(self).subscriptions,
            decreases self.log@.len(),
        {
            let ghost before = self.log@;
            self.log.remove(0);
            proof {
                assert(self.log@ == before.remove(0));
                assert(before.remove(0) =~= before.subrange(1, before.len() as int));
                assert(self.log@ =~= full.subrange(full.len() - self.log@.len(), full.len() as int));
            }
        }
        proof {
            if full.len() > max {
                assert(self.log@.len() == max);
            }
            assert(self.events() =~= keep_recent(old(self).events().push(ev), max));
        }
        r
    }

    /// `publish_at` with a fresh id at the current clock reading: whatever id
    /// and reading were drawn, the event logged carries that id and this
    /// topic, source and data.
    pub fn publish(&mut self, topic: &str, source: &str, data: String) -> (r: String)
        ensures
            r@.len() == 36,
            final(self).max_log() == old(self).max_log(),
            final(self).events().len() <= final(self).max_log(),
            final(self).topic_list() == old(self).topic_list(),
            final(self).subscribers() == old(self).subscribers(),
            exists|e: Event|
                e.id == r && e.topic@ == topic@ && e.source@ == source@ && e.data == data
                    && final(self).events() == #[trigger] keep_recent(old(self).events().push(e), old(self).max_log()),
    {
        let now = crate::clock::now_secs();
        let id = crate::ids::new_id();
        let r = self.publish_at(topic, source, data, id, now);
        r
    }

    /// Subscribes an id to a topic: the topic gets a channel if it has none,
    /// and the id joins its subscribers unless it is already one.
    pub fn subscribe(&mut self, topic: &str, subscriber_id: &str)
        ensures
            final(self).events() == old(self).events(),
            final(self).max_log() == old(self).max_log(),
            old(self).topic_list().contains(topic@) ==> final(self).topic_list() == old(self).topic_list(),
            !old(self).topic_list().contains(topic@) ==> final(self).topic_list() == old(self).topic_list().push(topic@),
            ({
                let before = if old(self).subscribers().contains_key(topic@) {
                    old(self).subscribers()[topic@]
                } else {
                    Seq::empty()
                };
                final(self).subscribers() == old(self).subscribers().insert(
                    topic@,
                    if before.contains(subscriber_id@) { before } else { before.push(subscriber_id@) },
                )
            }),
    {
        let t = chars_of(topic);
        let mut known = false;
        let mut i: usize = 0;
        while i < self.topics.len()
            invariant
                i <= self.topics@.len(),
                t@ == topic@,
                known == exists|j: int| 0 <= j < i && #[trigger] self.topics@[j]@ == topic@,
            decreases self.topics@.len() - i,
        {
            if eq(chars_of(self.topics[i].as_str()).as_slice(), t.as_slice()) {
                known = true;
            }
            i = i + 1;
        }
        proof {
            if known {
                let j = choose|j: int| 0 <= j < self.topics@.len() && #[trigger] self.topics@[j]@ == topic@;
                assert(self.topic_list()[j] == topic@);
            } else {
                if self.topic_list().contains(topic@) {
                    let j = choose|j: int| 0 <= j < self.topic_list().len() && self.topic_list()[j] == topic@;
                    assert(self.topics@[j]@ == topic@);
                }
            }
        }
        if !known {
            self.topics.push(text(topic));
            assert(self.topic_list() =~= old(self).topic_list().push(topic@));
        }
        let ghost subs_before = self.subscribers();
        let mut list: Vec<String> = match subscriptions_remove(&mut self.subscriptions, topic) {
            Some(v) => v,
            None => Vec::new(),
        };
        let ghost before = list@.map_values(|s: String| s@);
        assert(before == (if subs_before.contains_key(topic@) { subs_before[topic@] } else { Seq::<Seq<char>>::empty() }));
        let sid = chars_of(subscriber_id);
        let mut present = false;
        let mut k: usize = 0;
        while k < list.len()
            invariant
                k <= list@.len(),
                sid@ == subscriber_id@,
                before == list@.map_values(|s: String| s@),
                present == exists|j: int| 0 <= j < k && #[trigger] list@[j]@ == subscriber_id@,
            decreases list@.len() - k,
        {
            if eq(chars_of(list[k].as_str()).as_slice(), sid.as_slice()) {
                present = true;
            }
            k = k + 1;
        }
        proof {
            if present {
                let j = choose|j: int| 0 <= j < list@.len() && #[trigger] list@[j]@ == subscriber_id@;
                assert(before[j] == subscriber_id@);
            } else if before.contains(subscriber_id@) {
                let j = choose|j: int| 0 <= j < before.len() && before[j] == subscriber_id@;
                assert(list@[j]@ == subscriber_id@);
            }
        }
        if !present {
            list.push(text(subscriber_id));
            assert(list@.map_values(|s: String| s@) =~= before.push(subscriber_id@));
        }
        let ghost after_list = list@.map_values(|s: String| s@);
        subscriptions_insert(&mut self.subscriptions, text(topic), list);
        proof {
            assert(self.subscribers() =~= subs_before.insert(topic@, after_list));
            assert(subs_before.insert(topic@, after_list) =~= old(self).subscribers().insert(topic@, after_list));
        }
    }

    /// The topics that have a channel.
    pub fn list_topics(&self) -> (r: Vec<String>)
        ensures
            r@.map_values(|t: String| t@) == self.topic_list(),
    {
        let r = copy_strings(&self.topics);
        r
    }

    /// A topic's subscribers (none when nobody subscribed).
    pub fn topic_subscribers(&self, topic: &str) -> (r: Vec<String>)
        ensures
            self.subscribers().contains_key(topic@) ==> r@.map_values(|s: String| s@) == self.subscribers()[topic@],
            !self.subscribers().contains_key(topic@) ==> r@.len() == 0,
    {
        match subscriptions_get(&self.subscriptions, topic) {
            Some(v) => v,
            None => Vec::new(),
        }
    }

    /// The last `limit` events, newest first.
    pub fn recent_events(&self, limit: usize) -> (r: Vec<Event>)
        ensures
            r@.len() == if limit < self.events().len() { limit as nat } else { self.events().len() },
            forall|i: int| 0 <= i < r@.len() ==> same_event(#[trigger] r@[i], self.events()[self.events().len() - 1 - i]),
    {
        let n = self.log.len();
        let mut r: Vec<Event> = Vec::new();
        let mut i: usize = 0;
        while i < n && i < limit
            invariant
                n == self.log@.len(),
                i <= n,
                i <= limit,
                r@.len() == i,
                forall|j: int| 0 <= j < i ==> same_event(#[trigger] r@[j], self.log@[n - 1 - j]),
            decreases n - i,
        {
            r.push(copy_event(&self.log[n - 1 - i]));
            i = i + 1;
        }
        r
    }

    /// The number of logged events, of topics with a channel, and of events
    /// per topic in the order topics first appear in the log.
    pub fn stats(&self) -> (r: (usize, usize, Vec<(String, u64)>))
        ensures
            r.0 == self.events().len(),
            r.1 == self.topic_list().len(),
            forall|i: int| 0 <= i < r.2@.len() ==> r.2@[i].1 == topic_count(self.events(), #[trigger] r.2@[i].0@),
            forall|i: int, j: int| 0 <= i < j < r.2@.len() ==> #[trigger] r.2@[i].0@ != #[trigger] r.2@[j].0@,
            forall|k: int| 0 <= k < self.events().len() ==> listed(r.2@, (#[trigger] self.events()[k]).topic@),
    {
        let n = self.log.len();
        let mut counts: Vec<(String, u64)> = Vec::new();
        let mut k: usize = 0;
        while k < n
            invariant
                n == self.log@.len(),
                k <= n,
                forall|i: int| 0 <= i < counts@.len() ==> counts@[i].1 == topic_count(
                    self.log@.subrange(0, k as int),
                    #[trigger] counts@[i].0@,
                ),
                forall|i: int, j: int| 0 <= i < j < counts@.len() ==> #[trigger] counts@[i].0@ != #[trigger] counts@[j].0@,
                forall|m: int| 0 <= m < k ==> exists|i: int|
                    0 <= i < counts@.len() && counts@[i].0@ == (#[trigger] self.log@[m]).topic@,
                forall|t: Seq<char>|
                    (forall|i: int| 0 <= i < counts@.len() ==> #[trigger] counts@[i].0@ != t) ==> topic_count(
                        self.log@.subrange(0, k as int),
                        t,
                    ) == 0,
            decreases n - k,
        {
            let ghost pre = self.log@.subrange(0, k as int);
            let ghost next = self.log@.subrange(0, k + 1);
            proof {
                assert(next.drop_last() =~= pre);
                assert(next.last() == self.log@[k as int]);
            }
            let topic = chars_of(self.log[k].topic.as_str());
            let idx = find_topic(&counts, topic.as_slice());
            let ghost old_counts = counts@;
            let ghost pos: int = match idx {
                Some(x) => x as int,
                None => old_counts.len() as int,
            };
            match idx {
                Some(x) => {
                    let name = counts[x].0.clone();
                    let c = counts[x].1;
                    proof {
                        assert(c == topic_count(pre, topic@));
                        assert(topic_count(pre, topic@) <= pre.len()) by {
                            lemma_topic_count_le(pre, topic@);
                        }
                    }
                    counts.set(x, (name, c + 1));
                    proof {
                        assert forall|i: int| 0 <= i < counts@.len() implies counts@[i].1 == topic_count(next, #[trigger] counts@[i].0@) by {
                            if i != x {
                                assert(old_counts[i].0@ != topic@);
                            }
                        }
                        assert forall|m: int| 0 <= m < k + 1 implies exists|i: int|
                            0 <= i < counts@.len() && counts@[i].0@ == (#[trigger] self.log@[m]).topic@ by {
                            if m == k {
                                assert(counts@[x as int].0@ == self.log@[m].topic@);
                            } else {
                                let i0 = choose|i: int| 0 <= i < old_counts.len() && old_counts[i].0@ == self.log@[m].topic@;
                                assert(counts@[i0].0@ == old_counts[i0].0@);
                            }
                        }
                    }
                },
                None => {
                    proof {
                        assert(topic_count(pre, topic@) == 0);
                    }
                    counts.push((string_of_chars(topic.as_slice()), 1));
                    proof {
                        assert forall|i: int| 0 <= i < counts@.len() implies counts@[i].1 == topic_count(next, #[trigger] counts@[i].0@) by {
                            if i < old_counts.len() {
                                assert(old_counts[i].0@ != topic@);
                            }
                        }
                        assert forall|m: int| 0 <= m < k + 1 implies exists|i: int|
                            0 <= i < counts@.len() && counts@[i].0@ == (#[trigger] self.log@[m]).topic@ by {
                            if m == k {
                                assert(counts@[old_counts.len() as int].0@ == self.log@[m].topic@);
                            } else {
                                let i0 = choose|i: int| 0 <= i < old_counts.len() && old_counts[i].0@ == self.log@[m].topic@;
                                assert(counts@[i0] == old_counts[i0]);
                            }
                        }
                    }
                },
            }
            proof {
                assert(counts@[pos].0@ == topic@);
                assert forall|t: Seq<char>| (forall|i: int| 0 <= i < counts@.len() ==> #[trigger] counts@[i].0@ != t) implies topic_count(
                    next,
                    t,
                ) == 0 by {
                    assert(counts@[pos].0@ != t);
                    assert forall|i: int| 0 <= i < old_counts.len() implies #[trigger] old_counts[i].0@ != t by {
                        assert(counts@[i].0@ == old_counts[i].0@);
                    }
                    assert(topic_count(pre, t) == 0);
                    assert(next.last().topic@ != t);
                    assert(topic_count(next, t) == topic_count(next.drop_last(), t));
                }
                assert forall|i: int, j: int| 0 <= i < j < counts@.len() implies #[trigger] counts@[i].0@ != #[trigger] counts@[j].0@ by {
                    if j < old_counts.len() {
                        assert(counts@[i].0@ == old_counts[i].0@ && counts@[j].0@ == old_counts[j].0@);
                    } else {
                        assert(counts@[i].0@ == old_counts[i].0@);
                    }
                }
            }
            k = k + 1;
        }
        proof {
            assert(self.log@.subrange(0, n as int) =~= self.log@);
        }
        let r = (n, self.topics.len(), counts);
        proof {
            assert forall|m: int| 0 <= m < self.events().len() implies listed(r.2@, (#[trigger] self.events()[m]).topic@) by {
                assert(self.events()[m] == self.log@[m]);
                let i0 = choose|i: int| 0 <= i < r.2@.len() && r.2@[i].0@ == self.log@[m].topic@;
                assert(r.2@[i0].0@ == self.events()[m].topic@);
            }
        }
        r
    }

    /// How many events the log keeps.
    pub fn max_log_size(&self) -> (n: usize)
        ensures
            n == self.max_log(),
    {
        self.max_log_size
    }
}

/// The log never holds more events than its size, and the newest event is
/// the last one published (when the log keeps any).
pub proof fn law_log_bounded(log: Seq<Event>, e: Event, max: nat)
    ensures
        keep_recent(log.push(e), max).len() <= if log.len() + 1 > max { max } else { log.len() + 1 },
        max > 0 ==> keep_recent(log.push(e), max).last() == e,
{
}

} // verus!
