use std::collections::VecDeque;

use vstd::prelude::*;
use vstd::multiset::Multiset;
use vstd::string::StrSliceExecFns;

use super::message::MqttMessage;
use super::ClientId;
use crate::qos::QualityOfService;

verus! {

/// One level of a topic filter, as a mathematical value.
pub enum FilterLevel {
    /// `#`: this level and every level below it.
    MultiWildcard,
    /// `+`: exactly one level, whatever its name.
    SingleWildcard,
    /// A level with exactly this name.
    Named(Seq<char>),
}

/// One level of a topic filter.
#[derive(Debug, Clone, PartialEq, Eq, Hash)]
pub enum TopicFilter {
    MultiWildcard,
    SingleWildcard,
    Named(String),
}

impl View for TopicFilter {
    type V = FilterLevel;

    open spec fn view(&self) -> FilterLevel {
        match self {
            TopicFilter::MultiWildcard => FilterLevel::MultiWildcard,
            TopicFilter::SingleWildcard => FilterLevel::SingleWildcard,
            TopicFilter::Named(name) => FilterLevel::Named(name@),
        }
    }
}

/// The levels of a topic or topic filter: the text split at every `/`.
/// There is always at least one level; `""` is one empty level.
pub open spec fn split_levels(s: Seq<char>) -> Seq<Seq<char>>
    decreases s.len(),
{
    if s.len() == 0 {
        seq![Seq::<char>::empty()]
    } else {
        let init = split_levels(s.drop_last());
        if s.last() == '/' {
            init.push(Seq::<char>::empty())
        } else {
            init.update(init.len() - 1, init.last().push(s.last()))
        }
    }
}

/// The filter level a piece of a topic filter stands for.
pub open spec fn level_of(piece: Seq<char>) -> FilterLevel {
    if piece == seq!['#'] {
        FilterLevel::MultiWildcard
    } else if piece == seq!['+'] {
        FilterLevel::SingleWildcard
    } else {
        FilterLevel::Named(piece)
    }
}

proof fn lemma_split_levels_nonempty(s: Seq<char>)
    ensures
        split_levels(s).len() >= 1,
    decreases s.len(),
{
    if s.len() > 0 {
        lemma_split_levels_nonempty(s.drop_last());
    }
}

/// Splits `topic` at every `/`: the pieces in order, as strings.
fn split_at_slashes(topic: &str) -> (res: Vec<String>)
    ensures
        res@.map_values(|s: String| s@) == split_levels(topic@),
{
    let len = topic.unicode_len();
    let mut res: Vec<String> = Vec::new();
    let mut start: usize = 0;
    let mut i: usize = 0;
    proof {
        assert(topic@.subrange(0, 0) =~= Seq::<char>::empty());
        assert(topic@.subrange(0, 0).subrange(0, 0) =~= Seq::<char>::empty());
        assert(res@.map_values(|s: String| s@).push(topic@.subrange(0, 0)) =~= seq![
            Seq::<char>::empty(),
        ]);
    }
    while i < len
        invariant
            len == topic@.len(),
            start <= i <= len,
            res@.map_values(|s: String| s@).push(topic@.subrange(start as int, i as int))
                == split_levels(topic@.subrange(0, i as int)),
        decreases len - i,
    {
        let c = topic.get_char(i);
        let ghost before = res@.map_values(|s: String| s@);
        let ghost init = split_levels(topic@.subrange(0, i as int));
        proof {
            let next = topic@.subrange(0, i + 1);
            assert(next.drop_last() =~= topic@.subrange(0, i as int));
            assert(next.last() == c);
            lemma_split_levels_nonempty(topic@.subrange(0, i as int));
            assert(split_levels(next) == if c == '/' {
                init.push(Seq::<char>::empty())
            } else {
                init.update(init.len() - 1, init.last().push(c))
            });
            assert(init.last() == topic@.subrange(start as int, i as int));
        }
        if c == '/' {
            let piece = topic.substring_char(start, i).to_owned();
            res.push(piece);
            proof {
                assert(res@.map_values(|s: String| s@) =~= before.push(
                    topic@.subrange(start as int, i as int),
                ));
            }
            start = i + 1;
            proof {
                assert(topic@.subrange(start as int, i + 1) =~= Seq::<char>::empty());
                assert(split_levels(topic@.subrange(0, i + 1)) == init.push(Seq::<char>::empty()));
                assert(res@.map_values(|s: String| s@).push(topic@.subrange(start as int, i + 1))
                    =~= init.push(Seq::<char>::empty()));
            }
        } else {
            assert(topic@.subrange(start as int, i + 1) =~= topic@.subrange(start as int, i as int).push(c));
            assert(res@.map_values(|s: String| s@).push(topic@.subrange(start as int, i + 1))
                =~= split_levels(topic@.subrange(0, i + 1)));
        }
        i = i + 1;
    }
    let ghost before = res@.map_values(|s: String| s@);
    let last = topic.substring_char(start, len).to_owned();
    res.push(last);
    assert(topic@.subrange(0, len as int) =~= topic@);
    assert(res@.map_values(|s: String| s@) =~= before.push(topic@.subrange(start as int, len as int)));
    assert(res@.map_values(|s: String| s@) =~= split_levels(topic@));
    res
}

impl TopicFilter {
    /// Splits a topic filter into its levels: `#` and `+` are wildcards, every
    /// other piece is a named level.
    pub fn parse_from(topic: String) -> (res: VecDeque<TopicFilter>)
        ensures
            res@.map_values(|f: TopicFilter| f@) == split_levels(topic@).map_values(
                |p: Seq<char>| level_of(p),
            ),
    {
        let pieces = split_at_slashes(topic.as_str());
        let mut res: VecDeque<TopicFilter> = VecDeque::new();
        let mut i: usize = 0;
        while i < pieces.len()
            invariant
                i <= pieces@.len(),
                pieces@.map_values(|s: String| s@) == split_levels(topic@),
                res@.map_values(|f: TopicFilter| f@) =~= pieces@.subrange(0, i as int).map_values(
                    |s: String| level_of(s@),
                ),
            decreases pieces@.len() - i,
        {
            let piece = pieces[i].clone();
            let filter = TopicFilter::from_piece(piece);
            let ghost before = res@;
            res.push_back(filter);
            proof {
                assert(pieces@.subrange(0, i + 1) =~= pieces@.subrange(0, i as int).push(pieces@[i as int]));
                assert(res@ == before.push(filter));
                assert(res@.map_values(|f: TopicFilter| f@) =~= before.map_values(|f: TopicFilter| f@).push(filter@));
            }
            i = i + 1;
        }
        assert(pieces@.subrange(0, pieces@.len() as int) =~= pieces@);
        assert(res@.map_values(|f: TopicFilter| f@) =~= split_levels(topic@).map_values(
            |p: Seq<char>| level_of(p),
        ));
        res
    }

    /// The filter level that one piece of a topic filter stands for.
    pub fn from_piece(piece: String) -> (res: TopicFilter)
        ensures
            res@ == level_of(piece@),
    {
        let is_single_char = piece.as_str().unicode_len() == 1;
        if is_single_char && piece.as_str().get_char(0) == '#' {
            assert(piece@ =~= seq!['#']);
            TopicFilter::MultiWildcard
        } else if is_single_char && piece.as_str().get_char(0) == '+' {
            assert(piece@ =~= seq!['+']);
            TopicFilter::SingleWildcard
        } else {
            assert(piece@ != seq!['#'] && piece@ != seq!['+']) by {
                if piece@.len() == 1 {
                    assert(piece@ == seq!['#'] ==> piece@[0] == '#');
                    assert(piece@ == seq!['+'] ==> piece@[0] == '+');
                }
            }
            TopicFilter::Named(piece)
        }
    }

    /// The name of a named level; a wildcard is handed back unchanged.
    pub fn try_into_named(self) -> (res: Result<String, TopicFilter>)
        ensures
            match self@ {
                FilterLevel::Named(name) => res matches Ok(s) && s@ == name,
                _ => res matches Err(f) && f@ == self@,
            },
    {
        match self {
            TopicFilter::Named(v) => Ok(v),
            other => Err(other),
        }
    }

    /// Whether two filter levels are the same.
    pub fn same_as(&self, other: &TopicFilter) -> (res: bool)
        ensures
            res == (self@ == other@),
    {
        match (self, other) {
            (TopicFilter::MultiWildcard, TopicFilter::MultiWildcard) => true,
            (TopicFilter::SingleWildcard, TopicFilter::SingleWildcard) => true,
            (TopicFilter::Named(a), TopicFilter::Named(b)) => *a == *b,
            _ => false,
        }
    }

    /// A copy of this filter level.
    pub fn duplicate(&self) -> (res: TopicFilter)
        ensures
            res@ == self@,
    {
        match self {
            TopicFilter::MultiWildcard => TopicFilter::MultiWildcard,
            TopicFilter::SingleWildcard => TopicFilter::SingleWildcard,
            TopicFilter::Named(name) => TopicFilter::Named(name.clone()),
        }
    }
}

/// A topic that a message is published to, split into its levels.
#[derive(Debug, Clone)]
pub struct TopicName(VecDeque<String>);

impl View for TopicName {
    type V = Seq<Seq<char>>;

    closed spec fn view(&self) -> Seq<Seq<char>> {
        self.0@.map_values(|s: String| s@)
    }
}

impl TopicName {
    /// Splits a topic into its levels at every `/`.
    pub fn parse_from(topic: &str) -> (res: TopicName)
        ensures
            res@ == split_levels(topic@),
    {
        let pieces = split_at_slashes(topic);
        let mut levels: VecDeque<String> = VecDeque::new();
        let mut i: usize = 0;
        while i < pieces.len()
            invariant
                i <= pieces@.len(),
                levels@.map_values(|s: String| s@) =~= pieces@.subrange(0, i as int).map_values(
                    |s: String| s@,
                ),
            decreases pieces@.len() - i,
        {
            let piece = pieces[i].clone();
            let ghost before = levels@;
            levels.push_back(piece);
            proof {
                assert(pieces@.subrange(0, i + 1) =~= pieces@.subrange(0, i as int).push(pieces@[i as int]));
                assert(levels@ == before.push(piece));
                assert(levels@.map_values(|s: String| s@) =~= before.map_values(|s: String| s@).push(piece@));
            }
            i = i + 1;
        }
        assert(pieces@.subrange(0, pieces@.len() as int) =~= pieces@);
        TopicName(levels)
    }

    /// Takes the first level off the topic.
    pub fn pop_front(&mut self) -> (res: Option<String>)
        ensures
            old(self)@.len() == 0 ==> res is None && final(self)@ == old(self)@,
            old(self)@.len() > 0 ==> (res matches Some(s) && s@ == old(self)@[0])
                && final(self)@ == old(self)@.drop_first(),
    {
        let res = self.0.pop_front();
        assert(self@ =~= old(self)@.subrange(1, old(self)@.len() as int) || res is None);
        res
    }

    /// Whether no level is left.
    pub fn is_empty(&self) -> (res: bool)
        ensures
            res == (self@.len() == 0),
    {
        self.0.len() == 0
    }
}


/// A client's subscription: who is to receive matching messages, and with
/// at most which delivery guarantee.
#[derive(Debug)]
pub struct ClientSubscription {
    pub client: ClientId,
    pub qos: QualityOfService,
}

impl ClientSubscription {
    /// A copy of this subscription.
    pub fn duplicate(&self) -> (res: ClientSubscription)
        ensures
            res == *self,
    {
        ClientSubscription { client: self.client.duplicate(), qos: self.qos }
    }
}

/// Subscriptions are told apart by their client alone.
impl PartialEq for ClientSubscription {
    fn eq(&self, other: &Self) -> (res: bool) {
        self.client.same_as(&other.client)
    }
}

impl vstd::std_specs::cmp::PartialEqSpecImpl for ClientSubscription {
    open spec fn obeys_eq_spec() -> bool {
        true
    }

    open spec fn eq_spec(&self, other: &ClientSubscription) -> bool {
        self.client@ == other.client@
    }
}

/// A node of the subscription table: the subscriptions whose filter ends here,
/// and one child node per next filter level.
#[derive(Debug, PartialEq)]
pub struct SubscriptionTopic {
    pub subscriptions: Vec<ClientSubscription>,
    pub children: Vec<(TopicFilter, SubscriptionTopic)>,
}

/// The position of the first child filed under `key`, or `-1` when there is none.
pub open spec fn key_position(children: Seq<(TopicFilter, SubscriptionTopic)>, key: FilterLevel) -> int
    decreases children.len(),
{
    if children.len() == 0 {
        -1
    } else if children[0].0@ == key {
        0
    } else {
        let rest = key_position(children.drop_first(), key);
        if rest < 0 {
            -1
        } else {
            rest + 1
        }
    }
}

/// `key_position` finds the first child with the key, and `-1` means there is none.
pub proof fn lemma_key_position(children: Seq<(TopicFilter, SubscriptionTopic)>, key: FilterLevel)
    ensures
        -1 <= key_position(children, key) < children.len(),
        key_position(children, key) >= 0 ==> children[key_position(children, key)].0@ == key,
        forall|j: int|
            0 <= j < children.len() && (j < key_position(children, key) || key_position(children, key) < 0)
                ==> (#[trigger] children[j]).0@ != key,
    decreases children.len(),
{
    if children.len() > 0 && children[0].0@ != key {
        lemma_key_position(children.drop_first(), key);
        assert forall|j: int|
            0 <= j < children.len() && (j < key_position(children, key) || key_position(children, key) < 0)
                implies (#[trigger] children[j]).0@ != key by {
            if j > 0 {
                assert(children[j] == children.drop_first()[j - 1]);
            }
        }
    }
}

/// Replacing a child by one under the same key moves no key.
proof fn lemma_key_position_same_key(
    children: Seq<(TopicFilter, SubscriptionTopic)>,
    i: int,
    entry: (TopicFilter, SubscriptionTopic),
    key: FilterLevel,
)
    requires
        0 <= i < children.len(),
        entry.0@ == children[i].0@,
    ensures
        key_position(children.update(i, entry), key) == key_position(children, key),
{
    let updated = children.update(i, entry);
    lemma_key_position(children, key);
    lemma_key_position(updated, key);
    let a = key_position(children, key);
    let b = key_position(updated, key);
    if a >= 0 && b >= 0 {
        if a < b {
            assert(updated[a].0@ == children[a].0@);
        } else if b < a {
            assert(updated[b].0@ == children[b].0@);
        }
    } else if a >= 0 {
        assert(updated[a].0@ == children[a].0@);
    } else if b >= 0 {
        assert(updated[b].0@ == children[b].0@);
    }
}

/// Appending a child finds it only for its key, and only when no earlier child has that key.
proof fn lemma_key_position_push(
    children: Seq<(TopicFilter, SubscriptionTopic)>,
    entry: (TopicFilter, SubscriptionTopic),
    key: FilterLevel,
)
    ensures
        key_position(children.push(entry), key) == if key_position(children, key) >= 0 {
            key_position(children, key)
        } else if entry.0@ == key {
            children.len() as int
        } else {
            -1
        },
{
    let pushed = children.push(entry);
    lemma_key_position(children, key);
    lemma_key_position(pushed, key);
    let a = key_position(children, key);
    let b = key_position(pushed, key);
    if a >= 0 {
        if b >= 0 && b < a {
            assert(pushed[b] == children[b]);
        }
        assert(pushed[a] == children[a]);
    } else if b >= 0 && b < children.len() {
        assert(pushed[b] == children[b]);
    } else if entry.0@ == key {
        assert(pushed[children.len() as int] == entry);
    }
}

impl SubscriptionTopic {
    /// The child node filed under `key`, if there is one.
    pub open spec fn child(self, key: FilterLevel) -> Option<SubscriptionTopic> {
        let p = key_position(self.children@, key);
        if 0 <= p < self.children@.len() {
            Some(self.children@[p].1)
        } else {
            None
        }
    }

    /// The subscriptions filed under the filter `path`.
    pub open spec fn subs_at(self, path: Seq<FilterLevel>) -> Seq<ClientSubscription>
        decreases path.len(),
    {
        if path.len() == 0 {
            self.subscriptions@
        } else {
            let p = key_position(self.children@, path[0]);
            if 0 <= p < self.children@.len() {
                self.children@[p].1.subs_at(path.drop_first())
            } else {
                Seq::empty()
            }
        }
    }

    /// The subscriptions a message published to the topic `t` reaches, looking
    /// at `t` from level `idx` on: those filed under `#` right below this node,
    /// then those matched below `+`, then those matched below the level named
    /// `t[idx]`, then, when the topic ends here, those filed at this node.
    pub open spec fn matched(self, t: Seq<Seq<char>>, idx: int) -> Seq<ClientSubscription>
        decreases self,
    {
        let c = self.children@;
        let pm = key_position(c, FilterLevel::MultiWildcard);
        let ps = key_position(c, FilterLevel::SingleWildcard);
        let multi = if 0 <= pm < c.len() {
            c[pm].1.subscriptions@
        } else {
            Seq::empty()
        };
        let single = if 0 <= ps < c.len() {
            c[ps].1.matched(t, idx + 1)
        } else {
            Seq::empty()
        };
        let named = if 0 <= idx < t.len() {
            let pn = key_position(c, FilterLevel::Named(t[idx]));
            if 0 <= pn < c.len() {
                c[pn].1.matched(t, idx + 1)
            } else {
                Seq::empty()
            }
        } else {
            Seq::empty()
        };
        let here = if idx == t.len() {
            self.subscriptions@
        } else {
            Seq::empty()
        };
        multi + single + named + here
    }

    /// The table without any subscription.
    pub fn new() -> (res: SubscriptionTopic)
        ensures
            res.subscriptions@.len() == 0,
            res.children@.len() == 0,
            distinct_keys(res),
            forall|p: Seq<FilterLevel>| #[trigger] res.subs_at(p) == Seq::<ClientSubscription>::empty(),
    {
        let res = SubscriptionTopic { subscriptions: Vec::new(), children: Vec::new() };
        assert forall|p: Seq<FilterLevel>| #[trigger] res.subs_at(p) == Seq::<ClientSubscription>::empty() by {
            if p.len() > 0 {
                lemma_key_position(res.children@, p[0]);
            } else {
                assert(res.subscriptions@ =~= Seq::<ClientSubscription>::empty());
            }
        }
        res
    }

    /// The position of the first child filed under `key`.
    fn find_child(&self, key: &TopicFilter) -> (res: Option<usize>)
        ensures
            match res {
                Some(i) => i == key_position(self.children@, key@) && i < self.children@.len(),
                None => key_position(self.children@, key@) == -1,
            },
    {
        proof {
            lemma_key_position(self.children@, key@);
        }
        let mut i: usize = 0;
        while i < self.children.len()
            invariant
                i <= self.children@.len(),
                forall|j: int| 0 <= j < i ==> (#[trigger] self.children@[j]).0@ != key@,
                -1 <= key_position(self.children@, key@) < self.children@.len(),
                key_position(self.children@, key@) >= 0 ==> self.children@[key_position(
                    self.children@,
                    key@,
                )].0@ == key@,
                forall|j: int|
                    0 <= j < self.children@.len() && (j < key_position(self.children@, key@)
                        || key_position(self.children@, key@) < 0) ==> (#[trigger] self.children@[j]).0@
                        != key@,
            decreases self.children@.len() - i,
        {
            if self.children[i].0.same_as(key) {
                return Some(i);
            }
            i = i + 1;
        }
        None
    }

    /// Files `client` under the filter whose levels are `topic`: the node
    /// reached along `topic` gets `client` last; a level with no child yet
    /// gets a new one, last among its siblings ([`filed_under`]).
    pub fn add_subscription(&mut self, topic: VecDeque<TopicFilter>, client: ClientSubscription)
        ensures
            filed_under(*old(self), *final(self), topic@.map_values(|f: TopicFilter| f@), client),
            distinct_keys(*old(self)) ==> distinct_keys(*final(self)),
            forall|p: Seq<FilterLevel>|
                #[trigger] final(self).subs_at(p) == if p == topic@.map_values(|f: TopicFilter| f@) {
                    old(self).subs_at(p).push(client)
                } else {
                    old(self).subs_at(p)
                },
        decreases topic@.len(),
    {
        let ghost path = topic@.map_values(|f: TopicFilter| f@);
        let mut topic = topic;
        match topic.pop_front() {
            None => {
                self.subscriptions.push(client);
                assert(path.len() == 0);
                assert forall|p: Seq<FilterLevel>| #[trigger] self.subs_at(p) == if p == path {
                    old(self).subs_at(p).push(client)
                } else {
                    old(self).subs_at(p)
                } by {
                    if p.len() == 0 {
                        assert(p =~= path);
                    }
                }
            },
            Some(filter) => {
                let ghost rest = topic@.map_values(|f: TopicFilter| f@);
                assert(path =~= seq![filter@] + rest);
                match self.find_child(&filter) {
                    Some(i) => {
                        let (key, mut child) = self.children.remove(i);
                        let ghost old_child = child;
                        child.add_subscription(topic, client);
                        let ghost new_child = child;
                        self.children.insert(i, (key, child));
                        proof {
                            let oc = old(self).children@;
                            assert(self.children@ =~= oc.update(i as int, (key, new_child)));
                            assert(path.drop_first() =~= rest);
                            assert(filed_under(*old(self), *self, path, client));
                            if distinct_keys(*old(self)) {
                                assert(distinct_keys(old_child));
                                assert forall|a: int, b: int|
                                    0 <= a < b < self.children@.len() implies #[trigger] self.children@[a].0@
                                        != #[trigger] self.children@[b].0@ by {
                                    assert(self.children@[a].0@ == oc[a].0@);
                                    assert(self.children@[b].0@ == oc[b].0@);
                                }
                                assert forall|a: int| 0 <= a < self.children@.len() implies distinct_keys(
                                    #[trigger] self.children@[a].1,
                                ) by {
                                    if a != i {
                                        assert(self.children@[a] == oc[a]);
                                    }
                                }
                            }
                            assert forall|p: Seq<FilterLevel>| #[trigger] self.subs_at(p) == if p == path {
                                old(self).subs_at(p).push(client)
                            } else {
                                old(self).subs_at(p)
                            } by {
                                if p.len() > 0 {
                                    lemma_key_position_same_key(oc, i as int, (key, new_child), p[0]);
                                    lemma_key_position(oc, p[0]);
                                    let q = p.drop_first();
                                    let pos = key_position(oc, p[0]);
                                    assert(key_position(self.children@, p[0]) == pos);
                                    if p[0] == filter@ {
                                        assert(pos == i);
                                        assert(self.children@[pos].1 == new_child);
                                        assert(self.subs_at(p) == new_child.subs_at(q));
                                        assert(old_child == oc[pos].1);
                                        assert(old(self).subs_at(p) == old_child.subs_at(q));
                                        assert(p == path <==> q == rest) by {
                                            if q == rest {
                                                assert(p =~= seq![filter@] + rest);
                                            }
                                            if p == path {
                                                assert(q =~= rest);
                                            }
                                        }
                                    } else {
                                        assert(p != path) by {
                                            if p == path {
                                                assert(p[0] == path[0]);
                                            }
                                        }
                                        if 0 <= pos {
                                            lemma_key_position(oc, filter@);
                                            assert(pos != i);
                                            assert(self.children@[pos] == oc[pos]);
                                        }
                                    }
                                } else {
                                    assert(p != path);
                                }
                            }
                        }
                    },
                    None => {
                        let mut child = SubscriptionTopic::new();
                        let ghost empty_child = child;
                        child.add_subscription(topic, client);
                        let ghost new_child = child;
                        self.children.push((filter, child));
                        proof {
                            let oc = old(self).children@;
                            assert(self.children@ =~= oc.push((filter, new_child)));
                            assert(path.drop_first() =~= rest);
                            lemma_filed_under_empty(empty_child, new_child, rest, client);
                            assert(filed_under(*old(self), *self, path, client));
                            if distinct_keys(*old(self)) {
                                lemma_only_filed_distinct(new_child, rest, client);
                                lemma_key_position(oc, filter@);
                                assert forall|a: int, b: int|
                                    0 <= a < b < self.children@.len() implies #[trigger] self.children@[a].0@
                                        != #[trigger] self.children@[b].0@ by {
                                    assert(self.children@[a] == oc[a]);
                                    if b < oc.len() {
                                        assert(self.children@[b] == oc[b]);
                                    }
                                }
                                assert forall|a: int| 0 <= a < self.children@.len() implies distinct_keys(
                                    #[trigger] self.children@[a].1,
                                ) by {
                                    if a < oc.len() {
                                        assert(self.children@[a] == oc[a]);
                                    }
                                }
                            }
                            assert forall|p: Seq<FilterLevel>| #[trigger] self.subs_at(p) == if p == path {
                                old(self).subs_at(p).push(client)
                            } else {
                                old(self).subs_at(p)
                            } by {
                                if p.len() > 0 {
                                    lemma_key_position_push(oc, (filter, new_child), p[0]);
                                    lemma_key_position(oc, p[0]);
                                    let q = p.drop_first();
                                    let pos = key_position(oc, p[0]);
                                    if p[0] == filter@ {
                                        assert(pos == -1);
                                        assert(key_position(self.children@, p[0]) == oc.len());
                                        assert(self.children@[oc.len() as int].1 == new_child);
                                        assert(self.subs_at(p) == new_child.subs_at(q));
                                        assert(empty_child.subs_at(q) == Seq::<ClientSubscription>::empty());
                                        assert(old(self).subs_at(p) == Seq::<ClientSubscription>::empty());
                                        assert(p == path <==> q == rest) by {
                                            if q == rest {
                                                assert(p =~= seq![filter@] + rest);
                                            }
                                            if p == path {
                                                assert(q =~= rest);
                                            }
                                        }
                                    } else {
                                        assert(p != path) by {
                                            if p == path {
                                                assert(p[0] == path[0]);
                                            }
                                        }
                                        assert(key_position(self.children@, p[0]) == pos);
                                        if 0 <= pos {
                                            assert(self.children@[pos] == oc[pos]);
                                        }
                                    }
                                } else {
                                    assert(p != path);
                                }
                            }
                        }
                    },
                }
            },
        }
    }
}


/// `after` is `before` with `client` filed under the filter levels `path`:
/// with `path` empty, `client` comes last among the node's subscriptions;
/// otherwise the child under `path[0]` has it filed under the rest of the
/// path, a new child being added last when there was none, and nothing else
/// changes.
pub open spec fn filed_under(
    before: SubscriptionTopic,
    after: SubscriptionTopic,
    path: Seq<FilterLevel>,
    client: ClientSubscription,
) -> bool
    decreases path.len(),
{
    if path.len() == 0 {
        after.subscriptions@ == before.subscriptions@.push(client) && after.children@ == before.children@
    } else {
        let b = before.children@;
        let a = after.children@;
        let p = key_position(b, path[0]);
        &&& after.subscriptions@ == before.subscriptions@
        &&& if 0 <= p < b.len() {
            &&& a.len() == b.len()
            &&& forall|j: int| 0 <= j < b.len() && j != p ==> #[trigger] a[j] == b[j]
            &&& a[p].0 == b[p].0
            &&& filed_under(b[p].1, a[p].1, path.drop_first(), client)
        } else {
            &&& a.len() == b.len() + 1
            &&& forall|j: int| 0 <= j < b.len() ==> #[trigger] a[j] == b[j]
            &&& a[b.len() as int].0@ == path[0]
            &&& only_filed(a[b.len() as int].1, path.drop_first(), client)
        }
    }
}

/// `node` holds nothing but `client` filed under `path`: one child per
/// level of the path, and `client` alone at its end.
pub open spec fn only_filed(node: SubscriptionTopic, path: Seq<FilterLevel>, client: ClientSubscription) -> bool
    decreases path.len(),
{
    if path.len() == 0 {
        node.subscriptions@ == seq![client] && node.children@.len() == 0
    } else {
        &&& node.subscriptions@.len() == 0
        &&& node.children@.len() == 1
        &&& node.children@[0].0@ == path[0]
        &&& only_filed(node.children@[0].1, path.drop_first(), client)
    }
}

/// No two children of a node, at any depth, are filed under the same level.
pub open spec fn distinct_keys(node: SubscriptionTopic) -> bool
    decreases node,
{
    &&& forall|a: int, b: int|
        0 <= a < b < node.children@.len() ==> #[trigger] node.children@[a].0@ != #[trigger] node.children@[b].0@
    &&& forall|a: int| 0 <= a < node.children@.len() ==> distinct_keys(#[trigger] node.children@[a].1)
}

/// A node holding one subscription alone has its children under distinct levels.
proof fn lemma_only_filed_distinct(node: SubscriptionTopic, path: Seq<FilterLevel>, client: ClientSubscription)
    requires
        only_filed(node, path, client),
    ensures
        distinct_keys(node),
    decreases path.len(),
{
    if path.len() > 0 {
        lemma_only_filed_distinct(node.children@[0].1, path.drop_first(), client);
    }
}

/// Filing a subscription in an empty node leaves only that subscription.
proof fn lemma_filed_under_empty(
    empty: SubscriptionTopic,
    after: SubscriptionTopic,
    path: Seq<FilterLevel>,
    client: ClientSubscription,
)
    requires
        empty.subscriptions@.len() == 0,
        empty.children@.len() == 0,
        filed_under(empty, after, path, client),
    ensures
        only_filed(after, path, client),
{
    if path.len() == 0 {
        assert(after.subscriptions@ =~= seq![client]);
    } else {
        assert(key_position(empty.children@, path[0]) == -1);
    }
}

/// Whether the topic filter `f` matches the topic `t`, looking at `t` from
/// level `idx` on: a named level must equal the topic's level, `+` steps
/// over one level, and `#` (as the last level of the filter) matches all
/// that follows. A `+` steps past the end of the topic as well, so a filter
/// ending in `+/#` also matches a topic one level shorter than the filter.
pub open spec fn filter_matches(f: Seq<FilterLevel>, t: Seq<Seq<char>>, idx: int) -> bool
    decreases f.len(),
{
    if f.len() == 0 {
        idx == t.len()
    } else {
        match f[0] {
            FilterLevel::MultiWildcard => f.len() == 1,
            FilterLevel::SingleWildcard => filter_matches(f.drop_first(), t, idx + 1),
            FilterLevel::Named(n) => 0 <= idx < t.len() && t[idx] == n && filter_matches(
                f.drop_first(),
                t,
                idx + 1,
            ),
        }
    }
}

/// The subscriptions filed under `path` in a node that may be absent.
pub open spec fn subs_at_opt(o: Option<SubscriptionTopic>, path: Seq<FilterLevel>) -> Seq<ClientSubscription> {
    match o {
        Some(node) => node.subs_at(path),
        None => Seq::empty(),
    }
}

/// The subscriptions a topic reaches in a node that may be absent.
pub open spec fn matched_opt(o: Option<SubscriptionTopic>, t: Seq<Seq<char>>, idx: int) -> Seq<ClientSubscription> {
    match o {
        Some(node) => node.matched(t, idx),
        None => Seq::empty(),
    }
}

/// The subscriptions filed directly at a node that may be absent.
pub open spec fn own_opt(o: Option<SubscriptionTopic>) -> Seq<ClientSubscription> {
    match o {
        Some(node) => node.subscriptions@,
        None => Seq::empty(),
    }
}

/// The child under `key` of a node that may be absent.
pub open spec fn child_opt(o: Option<SubscriptionTopic>, key: FilterLevel) -> Option<SubscriptionTopic> {
    match o {
        Some(node) => node.child(key),
        None => None,
    }
}

/// The lookup of a path below `key` goes through the child under `key`.
proof fn lemma_subs_at_below(o: Option<SubscriptionTopic>, key: FilterLevel, q: Seq<FilterLevel>)
    ensures
        subs_at_opt(o, seq![key] + q) == subs_at_opt(child_opt(o, key), q),
{
    if let Some(node) = o {
        assert((seq![key] + q)[0] == key);
        assert((seq![key] + q).drop_first() =~= q);
    }
}

/// A node under which nothing is filed reaches nothing.
proof fn lemma_nothing_filed_nothing_matched(a: SubscriptionTopic, t: Seq<Seq<char>>, idx: int)
    requires
        forall|p: Seq<FilterLevel>| #[trigger] a.subs_at(p) == Seq::<ClientSubscription>::empty(),
    ensures
        a.matched(t, idx) == Seq::<ClientSubscription>::empty(),
    decreases a,
{
    let c = a.children@;
    let keys = seq![FilterLevel::MultiWildcard, FilterLevel::SingleWildcard];
    let pm = key_position(c, FilterLevel::MultiWildcard);
    if 0 <= pm < c.len() {
        lemma_subs_at_below(Some(a), FilterLevel::MultiWildcard, Seq::empty());
        assert(seq![FilterLevel::MultiWildcard] + Seq::<FilterLevel>::empty() =~= seq![FilterLevel::MultiWildcard]);
        assert(a.subs_at(seq![FilterLevel::MultiWildcard]) == Seq::<ClientSubscription>::empty());
    }
    let ps = key_position(c, FilterLevel::SingleWildcard);
    if 0 <= ps < c.len() {
        let ch = c[ps].1;
        assert forall|q: Seq<FilterLevel>| #[trigger] ch.subs_at(q) == Seq::<ClientSubscription>::empty() by {
            lemma_subs_at_below(Some(a), FilterLevel::SingleWildcard, q);
            assert(a.subs_at(seq![FilterLevel::SingleWildcard] + q) == Seq::<ClientSubscription>::empty());
        }
        lemma_nothing_filed_nothing_matched(ch, t, idx + 1);
    }
    if 0 <= idx < t.len() {
        let k = FilterLevel::Named(t[idx]);
        let pn = key_position(c, k);
        if 0 <= pn < c.len() {
            let ch = c[pn].1;
            assert forall|q: Seq<FilterLevel>| #[trigger] ch.subs_at(q) == Seq::<ClientSubscription>::empty() by {
                lemma_subs_at_below(Some(a), k, q);
                assert(a.subs_at(seq![k] + q) == Seq::<ClientSubscription>::empty());
            }
            lemma_nothing_filed_nothing_matched(ch, t, idx + 1);
        }
    }
    assert(a.subs_at(Seq::empty()) == a.subscriptions@);
    assert(a.matched(t, idx) =~= Seq::<ClientSubscription>::empty());
}

/// Two nodes under which the same subscriptions are filed reach the same
/// subscriptions, in the same order.
proof fn lemma_same_filed_same_matched(x: SubscriptionTopic, y: SubscriptionTopic, t: Seq<Seq<char>>, idx: int)
    requires
        forall|p: Seq<FilterLevel>| #[trigger] x.subs_at(p) == y.subs_at(p),
    ensures
        x.matched(t, idx) == y.matched(t, idx),
    decreases x, 1int,
{
    assert(x.subs_at(Seq::empty()) == y.subs_at(Seq::empty()));
    lemma_same_filed_children(x, y, FilterLevel::MultiWildcard, t, idx + 1);
    lemma_same_filed_children(x, y, FilterLevel::SingleWildcard, t, idx + 1);
    if 0 <= idx < t.len() {
        lemma_same_filed_children(x, y, FilterLevel::Named(t[idx]), t, idx + 1);
    }
}

/// The children under one key of two nodes with the same filed subscriptions
/// reach the same subscriptions and hold the same subscriptions themselves.
proof fn lemma_same_filed_children(
    x: SubscriptionTopic,
    y: SubscriptionTopic,
    key: FilterLevel,
    t: Seq<Seq<char>>,
    idx: int,
)
    requires
        forall|p: Seq<FilterLevel>| #[trigger] x.subs_at(p) == y.subs_at(p),
    ensures
        matched_opt(x.child(key), t, idx) == matched_opt(y.child(key), t, idx),
        own_opt(x.child(key)) == own_opt(y.child(key)),
    decreases x, 0int,
{
    let cx = x.child(key);
    let cy = y.child(key);
    assert forall|q: Seq<FilterLevel>| #[trigger] subs_at_opt(cx, q) == subs_at_opt(cy, q) by {
        lemma_subs_at_below(Some(x), key, q);
        lemma_subs_at_below(Some(y), key, q);
        assert(x.subs_at(seq![key] + q) == y.subs_at(seq![key] + q));
    }
    assert(subs_at_opt(cx, Seq::empty()) == own_opt(cx));
    assert(subs_at_opt(cy, Seq::empty()) == own_opt(cy));
    match (cx, cy) {
        (None, None) => {},
        (Some(a), None) => {
            assert forall|p: Seq<FilterLevel>| #[trigger] a.subs_at(p) == Seq::<ClientSubscription>::empty() by {
                assert(subs_at_opt(cx, p) == subs_at_opt(cy, p));
            }
            lemma_nothing_filed_nothing_matched(a, t, idx);
        },
        (None, Some(b)) => {
            assert forall|p: Seq<FilterLevel>| #[trigger] b.subs_at(p) == Seq::<ClientSubscription>::empty() by {
                assert(subs_at_opt(cy, p) == subs_at_opt(cx, p));
            }
            lemma_nothing_filed_nothing_matched(b, t, idx);
        },
        (Some(a), Some(b)) => {
            let pos = key_position(x.children@, key);
            assert(a == x.children@[pos].1);
            assert forall|p: Seq<FilterLevel>| #[trigger] a.subs_at(p) == b.subs_at(p) by {
                assert(subs_at_opt(cx, p) == subs_at_opt(cy, p));
            }
            lemma_same_filed_same_matched(a, b, t, idx);
        },
    }
}

/// Nodes that may be absent, with the same filed subscriptions, reach the
/// same subscriptions and hold the same subscriptions themselves.
proof fn lemma_same_filed_opt(a: Option<SubscriptionTopic>, b: Option<SubscriptionTopic>, t: Seq<Seq<char>>, idx: int)
    requires
        forall|p: Seq<FilterLevel>| #[trigger] subs_at_opt(a, p) == subs_at_opt(b, p),
    ensures
        matched_opt(a, t, idx) == matched_opt(b, t, idx),
        own_opt(a) == own_opt(b),
{
    assert(subs_at_opt(a, Seq::empty()) == own_opt(a));
    assert(subs_at_opt(b, Seq::empty()) == own_opt(b));
    match (a, b) {
        (None, None) => {},
        (Some(x), None) => {
            assert forall|p: Seq<FilterLevel>| #[trigger] x.subs_at(p) == Seq::<ClientSubscription>::empty() by {
                assert(subs_at_opt(a, p) == subs_at_opt(b, p));
            }
            lemma_nothing_filed_nothing_matched(x, t, idx);
        },
        (None, Some(y)) => {
            assert forall|p: Seq<FilterLevel>| #[trigger] y.subs_at(p) == Seq::<ClientSubscription>::empty() by {
                assert(subs_at_opt(b, p) == subs_at_opt(a, p));
            }
            lemma_nothing_filed_nothing_matched(y, t, idx);
        },
        (Some(x), Some(y)) => {
            assert forall|p: Seq<FilterLevel>| #[trigger] x.subs_at(p) == y.subs_at(p) by {
                assert(subs_at_opt(a, p) == subs_at_opt(b, p));
            }
            lemma_same_filed_same_matched(x, y, t, idx);
        },
    }
}


/// What a node that may be absent reaches, split into its four parts.
proof fn lemma_matched_parts(o: Option<SubscriptionTopic>, t: Seq<Seq<char>>, idx: int)
    ensures
        matched_opt(o, t, idx) == own_opt(child_opt(o, FilterLevel::MultiWildcard)) + matched_opt(
            child_opt(o, FilterLevel::SingleWildcard),
            t,
            idx + 1,
        ) + (if 0 <= idx < t.len() {
            matched_opt(child_opt(o, FilterLevel::Named(t[idx])), t, idx + 1)
        } else {
            Seq::<ClientSubscription>::empty()
        }) + (if idx == t.len() {
            own_opt(o)
        } else {
            Seq::<ClientSubscription>::empty()
        }),
{
    if o is None {
        assert(matched_opt(o, t, idx) =~= Seq::<ClientSubscription>::empty() + Seq::<ClientSubscription>::empty()
            + Seq::<ClientSubscription>::empty() + Seq::<ClientSubscription>::empty());
    }
}

proof fn lemma_multiset_of_four(
    a: Seq<ClientSubscription>,
    b: Seq<ClientSubscription>,
    c: Seq<ClientSubscription>,
    d: Seq<ClientSubscription>,
)
    ensures
        (a + b + c + d).to_multiset() == a.to_multiset().add(b.to_multiset()).add(c.to_multiset()).add(
            d.to_multiset(),
        ),
{
    vstd::seq_lib::lemma_multiset_commutative(a, b);
    vstd::seq_lib::lemma_multiset_commutative(a + b, c);
    vstd::seq_lib::lemma_multiset_commutative(a + b + c, d);
}

/// The children under a key other than the first level of `f` carry the same
/// subscriptions before and after `c` was filed under `f`.
proof fn lemma_other_key_unchanged(
    before: Option<SubscriptionTopic>,
    after: SubscriptionTopic,
    f: Seq<FilterLevel>,
    c: ClientSubscription,
    key: FilterLevel,
    t: Seq<Seq<char>>,
    idx: int,
)
    requires
        forall|p: Seq<FilterLevel>| #[trigger] after.subs_at(p) == if p == f {
            subs_at_opt(before, p).push(c)
        } else {
            subs_at_opt(before, p)
        },
        f.len() == 0 || f[0] != key,
    ensures
        matched_opt(after.child(key), t, idx) == matched_opt(child_opt(before, key), t, idx),
        own_opt(after.child(key)) == own_opt(child_opt(before, key)),
{
    assert forall|q: Seq<FilterLevel>| #[trigger] subs_at_opt(after.child(key), q) == subs_at_opt(
        child_opt(before, key),
        q,
    ) by {
        lemma_subs_at_below(Some(after), key, q);
        lemma_subs_at_below(before, key, q);
        let p = seq![key] + q;
        assert(p[0] == key);
        assert(p != f);
        assert(after.subs_at(p) == subs_at_opt(before, p));
    }
    lemma_same_filed_opt(after.child(key), child_opt(before, key), t, idx);
}

proof fn lemma_filed_then_matched(
    before: Option<SubscriptionTopic>,
    after: SubscriptionTopic,
    f: Seq<FilterLevel>,
    c: ClientSubscription,
    t: Seq<Seq<char>>,
    idx: int,
)
    requires
        forall|p: Seq<FilterLevel>| #[trigger] after.subs_at(p) == if p == f {
            subs_at_opt(before, p).push(c)
        } else {
            subs_at_opt(before, p)
        },
    ensures
        after.matched(t, idx).to_multiset() == if filter_matches(f, t, idx) {
            matched_opt(before, t, idx).to_multiset().insert(c)
        } else {
            matched_opt(before, t, idx).to_multiset()
        },
    decreases f.len(),
{
    let n = Some(after);
    let m = FilterLevel::MultiWildcard;
    let sw = FilterLevel::SingleWildcard;
    lemma_matched_parts(n, t, idx);
    lemma_matched_parts(before, t, idx);
    let a1 = own_opt(child_opt(n, m));
    let b1 = matched_opt(child_opt(n, sw), t, idx + 1);
    let c1 = if 0 <= idx < t.len() {
        matched_opt(child_opt(n, FilterLevel::Named(t[idx])), t, idx + 1)
    } else {
        Seq::<ClientSubscription>::empty()
    };
    let d1 = if idx == t.len() {
        own_opt(n)
    } else {
        Seq::<ClientSubscription>::empty()
    };
    let a0 = own_opt(child_opt(before, m));
    let b0 = matched_opt(child_opt(before, sw), t, idx + 1);
    let c0 = if 0 <= idx < t.len() {
        matched_opt(child_opt(before, FilterLevel::Named(t[idx])), t, idx + 1)
    } else {
        Seq::<ClientSubscription>::empty()
    };
    let d0 = if idx == t.len() {
        own_opt(before)
    } else {
        Seq::<ClientSubscription>::empty()
    };
    lemma_multiset_of_four(a1, b1, c1, d1);
    lemma_multiset_of_four(a0, b0, c0, d0);
    assert(after.subs_at(Seq::empty()) == own_opt(n));
    assert(subs_at_opt(before, Seq::empty()) == own_opt(before));
    let ms0 = matched_opt(before, t, idx).to_multiset();
    assert(after.matched(t, idx) == a1 + b1 + c1 + d1);
    assert(matched_opt(before, t, idx) == a0 + b0 + c0 + d0);
    if f.len() == 0 {
        lemma_other_key_unchanged(before, after, f, c, m, t, idx + 1);
        lemma_other_key_unchanged(before, after, f, c, sw, t, idx + 1);
        if 0 <= idx < t.len() {
            lemma_other_key_unchanged(before, after, f, c, FilterLevel::Named(t[idx]), t, idx + 1);
        }
        assert(Seq::<FilterLevel>::empty() == f);
        assert(a1 == a0 && b1 == b0 && c1 == c0);
        if idx == t.len() {
            assert(d1 == d0.push(c));
            d0.to_multiset_ensures();
            assert(d1.to_multiset() == d0.to_multiset().insert(c));
            assert(after.matched(t, idx).to_multiset() =~= ms0.insert(c));
        } else {
            assert(d1 == d0);
        }
    } else {
        let k0 = f[0];
        let rest = f.drop_first();
        assert(d1 == d0) by {
            assert(Seq::<FilterLevel>::empty() != f);
        }
        if k0 != m {
            lemma_other_key_unchanged(before, after, f, c, m, t, idx + 1);
        }
        if k0 != sw {
            lemma_other_key_unchanged(before, after, f, c, sw, t, idx + 1);
        }
        if 0 <= idx < t.len() && k0 != FilterLevel::Named(t[idx]) {
            lemma_other_key_unchanged(before, after, f, c, FilterLevel::Named(t[idx]), t, idx + 1);
        }
        lemma_subs_at_below(n, k0, rest);
        lemma_subs_at_below(before, k0, rest);
        assert(f =~= seq![k0] + rest);
        assert(after.subs_at(f) == subs_at_opt(before, f).push(c));
        let nc = after.child(k0);
        assert(nc is Some) by {
            assert(subs_at_opt(nc, rest).len() > 0);
        }
        let below = nc->Some_0;
        assert forall|q: Seq<FilterLevel>| #[trigger] below.subs_at(q) == if q == rest {
            subs_at_opt(child_opt(before, k0), q).push(c)
        } else {
            subs_at_opt(child_opt(before, k0), q)
        } by {
            lemma_subs_at_below(n, k0, q);
            lemma_subs_at_below(before, k0, q);
            let p = seq![k0] + q;
            assert(p == f <==> q == rest) by {
                if q == rest {
                    assert(p =~= f);
                }
                if p == f {
                    assert(q =~= p.drop_first());
                }
            }
        }
        match k0 {
            FilterLevel::MultiWildcard => {
                assert(below.subs_at(Seq::empty()) == below.subscriptions@);
                assert(Seq::<FilterLevel>::empty() == rest <==> f.len() == 1);
                assert(b1 == b0 && c1 == c0);
                if f.len() == 1 {
                    assert(a1 == a0.push(c));
                    a0.to_multiset_ensures();
                    assert(a1.to_multiset() == a0.to_multiset().insert(c));
                    assert(after.matched(t, idx).to_multiset() =~= ms0.insert(c));
                } else {
                    assert(a1 == a0);
                }
            },
            FilterLevel::SingleWildcard => {
                lemma_filed_then_matched(child_opt(before, k0), below, rest, c, t, idx + 1);
                assert(a1 == a0 && c1 == c0);
                assert(filter_matches(f, t, idx) == filter_matches(rest, t, idx + 1));
                if filter_matches(f, t, idx) {
                    assert(b1.to_multiset() == b0.to_multiset().insert(c));
                    assert(after.matched(t, idx).to_multiset() =~= ms0.insert(c));
                } else {
                    assert(b1.to_multiset() == b0.to_multiset());
                }
            },
            FilterLevel::Named(name) => {
                assert(a1 == a0 && b1 == b0);
                if 0 <= idx < t.len() && t[idx] == name {
                    lemma_filed_then_matched(child_opt(before, k0), below, rest, c, t, idx + 1);
                    assert(filter_matches(f, t, idx) == filter_matches(rest, t, idx + 1));
                    if filter_matches(f, t, idx) {
                        assert(c1.to_multiset() == c0.to_multiset().insert(c));
                        assert(after.matched(t, idx).to_multiset() =~= ms0.insert(c));
                    } else {
                        assert(c1.to_multiset() == c0.to_multiset());
                    }
                } else {
                    assert(c1 == c0);
                    assert(!filter_matches(f, t, idx));
                }
            },
        }
    }
}

/// Routing law: after `client` was filed under the filter `f`, a message
/// published to topic `t` reaches the same subscriptions as before, plus
/// `client` exactly when `f` matches `t` (each subscription counted as often
/// as it was made).
pub proof fn lemma_subscribe_then_route(
    before: SubscriptionTopic,
    after: SubscriptionTopic,
    f: Seq<FilterLevel>,
    client: ClientSubscription,
    t: Seq<Seq<char>>,
)
    requires
        forall|p: Seq<FilterLevel>| #[trigger] after.subs_at(p) == if p == f {
            before.subs_at(p).push(client)
        } else {
            before.subs_at(p)
        },
    ensures
        after.matched(t, 0).to_multiset() == if filter_matches(f, t, 0) {
            before.matched(t, 0).to_multiset().insert(client)
        } else {
            before.matched(t, 0).to_multiset()
        },
{
    lemma_filed_then_matched(Some(before), after, f, client, t, 0);
}

/// The subscriptions a message to topic `t` reaches after the first `n`
/// subscriptions, `clients[i]` filed under `filters[i]`: each one whose
/// filter matches `t`, once per time it was filed.
pub open spec fn routed_to(
    filters: Seq<Seq<FilterLevel>>,
    clients: Seq<ClientSubscription>,
    t: Seq<Seq<char>>,
    n: int,
) -> Multiset<ClientSubscription>
    decreases n,
{
    if n <= 0 {
        Multiset::empty()
    } else {
        let before = routed_to(filters, clients, t, n - 1);
        if filter_matches(filters[n - 1], t, 0) {
            before.insert(clients[n - 1])
        } else {
            before
        }
    }
}

/// `after` is `before` with `client` filed under the filter `f`, as far as
/// the subscriptions under each filter go.
pub open spec fn filed_once(
    before: SubscriptionTopic,
    after: SubscriptionTopic,
    f: Seq<FilterLevel>,
    client: ClientSubscription,
) -> bool {
    forall|p: Seq<FilterLevel>| #[trigger] after.subs_at(p) == if p == f {
        before.subs_at(p).push(client)
    } else {
        before.subs_at(p)
    }
}

/// Routing law over many subscriptions: starting from a table in which
/// nothing is filed, after filing `clients[i]` under `filters[i]` one after
/// the other (`tables[i + 1]` from `tables[i]`), a message published to `t`
/// reaches exactly the subscriptions whose filter matches `t`, each as many
/// times as it was filed.
pub proof fn lemma_route_after_subscribes(
    tables: Seq<SubscriptionTopic>,
    filters: Seq<Seq<FilterLevel>>,
    clients: Seq<ClientSubscription>,
    t: Seq<Seq<char>>,
)
    requires
        filters.len() == clients.len(),
        tables.len() == filters.len() + 1,
        forall|p: Seq<FilterLevel>| #[trigger] tables[0].subs_at(p) == Seq::<ClientSubscription>::empty(),
        forall|i: int|
            #![trigger filters[i]]
            0 <= i < filters.len() ==> filed_once(tables[i], tables[i + 1], filters[i], clients[i]),
    ensures
        tables.last().matched(t, 0).to_multiset() == routed_to(filters, clients, t, filters.len() as int),
{
    lemma_route_prefix(tables, filters, clients, t, filters.len() as int);
}

/// The routing law for the first `n` subscriptions.
proof fn lemma_route_prefix(
    tables: Seq<SubscriptionTopic>,
    filters: Seq<Seq<FilterLevel>>,
    clients: Seq<ClientSubscription>,
    t: Seq<Seq<char>>,
    n: int,
)
    requires
        filters.len() == clients.len(),
        tables.len() == filters.len() + 1,
        0 <= n <= filters.len(),
        forall|p: Seq<FilterLevel>| #[trigger] tables[0].subs_at(p) == Seq::<ClientSubscription>::empty(),
        forall|i: int|
            #![trigger filters[i]]
            0 <= i < filters.len() ==> filed_once(tables[i], tables[i + 1], filters[i], clients[i]),
    ensures
        tables[n].matched(t, 0).to_multiset() == routed_to(filters, clients, t, n),
    decreases n,
{
    if n == 0 {
        broadcast use vstd::seq_lib::group_to_multiset_ensures;

        lemma_empty_table_routes_nothing(tables[0], t);
        let m = tables[0].matched(t, 0).to_multiset();
        assert(m.len() == 0);
        vstd::multiset::lemma_multiset_empty_len(m);
    } else {
        lemma_route_prefix(tables, filters, clients, t, n - 1);
        let f = filters[n - 1];
        assert(filed_once(tables[n - 1], tables[n], f, clients[n - 1]));
        lemma_subscribe_then_route(tables[n - 1], tables[n], f, clients[n - 1], t);
    }
}

/// A table in which nothing is filed routes a message to no one.
pub proof fn lemma_empty_table_routes_nothing(table: SubscriptionTopic, t: Seq<Seq<char>>)
    requires
        forall|p: Seq<FilterLevel>| #[trigger] table.subs_at(p) == Seq::<ClientSubscription>::empty(),
    ensures
        table.matched(t, 0) == Seq::<ClientSubscription>::empty(),
{
    lemma_nothing_filed_nothing_matched(table, t, 0);
}


/// Past the end of the topic, how far past does not matter.
proof fn lemma_matched_past_end(node: SubscriptionTopic, t: Seq<Seq<char>>, i: int, j: int)
    requires
        i > t.len(),
        j > t.len(),
    ensures
        node.matched(t, i) == node.matched(t, j),
    decreases node,
{
    let c = node.children@;
    let ps = key_position(c, FilterLevel::SingleWildcard);
    if 0 <= ps < c.len() {
        lemma_matched_past_end(c[ps].1, t, i + 1, j + 1);
    }
}

/// Appends copies of `subs` to `res`.
fn extend_with_copies(res: &mut Vec<ClientSubscription>, subs: &Vec<ClientSubscription>)
    ensures
        final(res)@ == old(res)@ + subs@,
{
    let mut i: usize = 0;
    while i < subs.len()
        invariant
            i <= subs@.len(),
            res@ == old(res)@ + subs@.subrange(0, i as int),
        decreases subs@.len() - i,
    {
        res.push(subs[i].duplicate());
        assert(subs@.subrange(0, i + 1) =~= subs@.subrange(0, i as int).push(subs@[i as int]));
        i = i + 1;
    }
    assert(subs@.subrange(0, subs@.len() as int) =~= subs@);
}

impl TopicName {
    /// The subscriptions in `routing` that this topic reaches, looking at the
    /// topic from level `idx` on (see [`SubscriptionTopic::matched`]).
    pub fn get_matches(&self, idx: usize, routing: &SubscriptionTopic) -> (res: Vec<ClientSubscription>)
        requires
            self@.len() < usize::MAX,
        ensures
            res@ == routing.matched(self@, idx as int),
        decreases routing,
    {
        let len = self.0.len();
        let next = if idx <= len {
            idx + 1
        } else {
            idx
        };
        let mut res: Vec<ClientSubscription> = Vec::new();
        let ghost c = routing.children@;
        if let Some(p) = routing.find_child(&TopicFilter::MultiWildcard) {
            extend_with_copies(&mut res, &routing.children[p].1.subscriptions);
        }
        if let Some(p) = routing.find_child(&TopicFilter::SingleWildcard) {
            let mut below = self.get_matches(next, &routing.children[p].1);
            proof {
                if idx > len {
                    lemma_matched_past_end(c[p as int].1, self@, idx + 1, next as int);
                }
            }
            res.append(&mut below);
        }
        if idx < len {
            let name = TopicFilter::Named(self.0[idx].clone());
            if let Some(p) = routing.find_child(&name) {
                let mut below = self.get_matches(next, &routing.children[p].1);
                res.append(&mut below);
            }
        }
        if idx == len {
            extend_with_copies(&mut res, &routing.subscriptions);
        }
        assert(res@ =~= routing.matched(self@, idx as int));
        res
    }
}

/// The levels of the filter written `topic`.
pub open spec fn filter_path(topic: Seq<char>) -> Seq<FilterLevel> {
    split_levels(topic).map_values(|p: Seq<char>| level_of(p))
}

/// The server's answer to one subscription request.
#[derive(Debug, PartialEq, Eq, Structural, Clone, Copy)]
pub enum SubscriptionAck {
    MaximumQualityAtMostOnce,
    MaximumQualityAtLeastOnce,
    MaximumQualityExactlyOnce,
    Failure,
}

/// The answer to a request that was granted `granted` (or refused, `None`).
pub open spec fn ack_for(granted: Option<QualityOfService>) -> SubscriptionAck {
    match granted {
        None => SubscriptionAck::Failure,
        Some(QualityOfService::AtMostOnce) => SubscriptionAck::MaximumQualityAtMostOnce,
        Some(QualityOfService::AtLeastOnce) => SubscriptionAck::MaximumQualityAtLeastOnce,
        Some(QualityOfService::ExactlyOnce) => SubscriptionAck::MaximumQualityExactlyOnce,
    }
}

/// One subscription a client asked for: the topic filter, and the delivery
/// level the server's subscription policy granted for it (`None`: refused).
#[derive(Debug)]
pub struct SubscriptionRequest {
    pub topic: String,
    pub granted: Option<QualityOfService>,
}

/// A granted request is filed at exactly the level granted: under the
/// levels of its topic filter, `requests` of `client` file a subscription of
/// `client` with the level the SUBACK acknowledges; and every subscription
/// they file under a filter is `client`'s, at the level granted to a request
/// for that filter.
pub proof fn lemma_granted_level_is_filed(requests: Seq<SubscriptionRequest>, client: ClientId, i: int)
    requires
        0 <= i < requests.len(),
        requests[i].granted is Some,
    ensures
        filed_by(requests, client, filter_path(requests[i].topic@)).contains(
            ClientSubscription { client, qos: requests[i].granted.unwrap() },
        ),
        forall|k: int|
            0 <= k < filed_by(requests, client, filter_path(requests[i].topic@)).len() ==> {
                let sub = #[trigger] filed_by(requests, client, filter_path(requests[i].topic@))[k];
                &&& sub.client == client
                &&& exists|j: int|
                    0 <= j < requests.len() && requests[j].granted == Some(sub.qos) && filter_path(
                        requests[j].topic@,
                    ) == filter_path(requests[i].topic@)
            },
    decreases requests.len(),
{
    let p = filter_path(requests[i].topic@);
    let init = requests.drop_last();
    let last = requests.last();
    let before = filed_by(init, client, p);
    let filed = filed_by(requests, client, p);
    let sub = ClientSubscription { client, qos: requests[i].granted.unwrap() };
    if i == requests.len() - 1 {
        assert(filed == before.push(sub));
        assert(filed[before.len() as int] == sub);
        lemma_filed_by_sound(init, client, p);
    } else {
        assert(init[i] == requests[i]);
        lemma_granted_level_is_filed(init, client, i);
        let j = choose|j: int| 0 <= j < before.len() && before[j] == sub;
        assert(filed[j] == sub);
    }
    lemma_filed_by_sound(requests, client, p);
}

/// Every subscription that `requests` of `client` file under `path` is
/// `client`'s, at the level granted to a request for that filter.
proof fn lemma_filed_by_sound(requests: Seq<SubscriptionRequest>, client: ClientId, path: Seq<FilterLevel>)
    ensures
        forall|k: int|
            0 <= k < filed_by(requests, client, path).len() ==> {
                let sub = #[trigger] filed_by(requests, client, path)[k];
                &&& sub.client == client
                &&& exists|j: int|
                    0 <= j < requests.len() && requests[j].granted == Some(sub.qos) && filter_path(
                        requests[j].topic@,
                    ) == path
            },
    decreases requests.len(),
{
    if requests.len() > 0 {
        let init = requests.drop_last();
        lemma_filed_by_sound(init, client, path);
        let before = filed_by(init, client, path);
        let filed = filed_by(requests, client, path);
        assert forall|k: int| 0 <= k < filed.len() implies {
            let sub = #[trigger] filed[k];
            &&& sub.client == client
            &&& exists|j: int|
                0 <= j < requests.len() && requests[j].granted == Some(sub.qos) && filter_path(
                    requests[j].topic@,
                ) == path
        } by {
            if k < before.len() {
                assert(filed[k] == before[k]);
                let j = choose|j: int|
                    0 <= j < init.len() && init[j].granted == Some(before[k].qos) && filter_path(
                        init[j].topic@,
                    ) == path;
                assert(requests[j] == init[j]);
            } else {
                let n = requests.len() - 1;
                assert(requests[n] == requests.last());
            }
        }
    }
}

/// The subscriptions that `requests` of `client` file under the filter `path`,
/// in request order.
pub open spec fn filed_by(requests: Seq<SubscriptionRequest>, client: ClientId, path: Seq<FilterLevel>) -> Seq<
    ClientSubscription,
>
    decreases requests.len(),
{
    if requests.len() == 0 {
        Seq::empty()
    } else {
        let before = filed_by(requests.drop_last(), client, path);
        let last = requests.last();
        match last.granted {
            Some(q) => if filter_path(last.topic@) == path {
                before.push(ClientSubscription { client, qos: q })
            } else {
                before
            },
            None => before,
        }
    }
}

/// The weaker of two delivery levels, as numbers.
pub open spec fn min_level(a: u8, b: u8) -> u8 {
    if a <= b {
        a
    } else {
        b
    }
}

/// Keeps every client's subscriptions and routes published messages to them.
pub struct SubscriptionManager {
    subscriptions: SubscriptionTopic,
}

impl SubscriptionManager {
    /// No level is filed twice under one node of the table.
    #[verifier::type_invariant]
    spec fn table_keys_distinct(self) -> bool {
        distinct_keys(self.subscriptions)
    }

    /// The subscription table.
    pub closed spec fn table(&self) -> SubscriptionTopic {
        self.subscriptions
    }

    /// A manager without any subscription.
    pub fn new() -> (res: SubscriptionManager)
        ensures
            forall|p: Seq<FilterLevel>| #[trigger] res.table().subs_at(p) == Seq::<ClientSubscription>::empty(),
    {
        SubscriptionManager { subscriptions: SubscriptionTopic::new() }
    }

    /// Subscribes `client` as `requests` say: every granted request files a
    /// subscription under its filter, with the granted level. The answer to
    /// each request comes back, in request order.
    pub fn subscribe(&mut self, client: &ClientId, requests: Vec<SubscriptionRequest>) -> (res: Vec<
        SubscriptionAck,
    >)
        ensures
            res@.len() == requests@.len(),
            forall|i: int| 0 <= i < requests@.len() ==> res@[i] == ack_for(#[trigger] requests@[i].granted),
            forall|p: Seq<FilterLevel>|
                #[trigger] final(self).table().subs_at(p) == old(self).table().subs_at(p) + filed_by(
                    requests@,
                    *client,
                    p,
                ),
            forall|i: int|
                0 <= i < requests@.len() && (#[trigger] requests@[i]).granted is Some ==> {
                    let q = requests@[i].granted.unwrap();
                    &&& final(self).table().subs_at(filter_path(requests@[i].topic@)).contains(
                        ClientSubscription { client: *client, qos: q },
                    )
                    &&& res@[i] == ack_for(Some(q))
                },
    {
        proof {
            use_type_invariant(&*self);
        }
        let mut acks: Vec<SubscriptionAck> = Vec::new();
        let mut i: usize = 0;
        while i < requests.len()
            invariant
                distinct_keys(self.table()),
                i <= requests@.len(),
                acks@.len() == i,
                forall|j: int| 0 <= j < i ==> acks@[j] == ack_for(#[trigger] requests@[j].granted),
                forall|p: Seq<FilterLevel>|
                    #[trigger] self.table().subs_at(p) == old(self).table().subs_at(p) + filed_by(
                        requests@.subrange(0, i as int),
                        *client,
                        p,
                    ),
            decreases requests@.len() - i,
        {
            let request = &requests[i];
            let ghost sub = requests@.subrange(0, i + 1);
            assert(sub.drop_last() =~= requests@.subrange(0, i as int));
            assert(sub.last() == requests@[i as int]);
            let ack = match request.granted {
                None => SubscriptionAck::Failure,
                Some(QualityOfService::AtMostOnce) => SubscriptionAck::MaximumQualityAtMostOnce,
                Some(QualityOfService::AtLeastOnce) => SubscriptionAck::MaximumQualityAtLeastOnce,
                Some(QualityOfService::ExactlyOnce) => SubscriptionAck::MaximumQualityExactlyOnce,
            };
            match request.granted {
                Some(q) => {
                    let levels = TopicFilter::parse_from(request.topic.clone());
                    let ghost before = self.table();
                    let mut table = SubscriptionTopic::new();
                    std::mem::swap(&mut table, &mut self.subscriptions);
                    table.add_subscription(levels, ClientSubscription { client: client.duplicate(), qos: q });
                    self.subscriptions = table;
                    proof {
                        assert forall|p: Seq<FilterLevel>| #[trigger] self.table().subs_at(p)
                            == old(self).table().subs_at(p) + filed_by(sub, *client, p) by {
                            let prev = filed_by(requests@.subrange(0, i as int), *client, p);
                            if p == filter_path(request.topic@) {
                                assert(old(self).table().subs_at(p) + prev.push(
                                    ClientSubscription { client: *client, qos: q },
                                ) =~= (old(self).table().subs_at(p) + prev).push(
                                    ClientSubscription { client: *client, qos: q },
                                ));
                            }
                        }
                    }
                },
                None => {},
            }
            acks.push(ack);
            i = i + 1;
        }
        assert(requests@.subrange(0, requests@.len() as int) =~= requests@);
        proof {
            assert forall|i: int|
                0 <= i < requests@.len() && (#[trigger] requests@[i]).granted is Some implies {
                    let q = requests@[i].granted.unwrap();
                    &&& self.table().subs_at(filter_path(requests@[i].topic@)).contains(
                        ClientSubscription { client: *client, qos: q },
                    )
                    &&& acks@[i] == ack_for(Some(q))
                } by {
                let q = requests@[i].granted.unwrap();
                let p = filter_path(requests@[i].topic@);
                let sub = ClientSubscription { client: *client, qos: q };
                lemma_granted_level_is_filed(requests@, *client, i);
                let filed = filed_by(requests@, *client, p);
                let j = choose|j: int| 0 <= j < filed.len() && filed[j] == sub;
                let all = old(self).table().subs_at(p) + filed;
                assert(all[old(self).table().subs_at(p).len() + j] == sub);
                assert(self.table().subs_at(p) == all);
            }
        }
        acks
    }

    /// Where a published `message` goes: to every subscription it reaches
    /// (see [`SubscriptionTopic::matched`]), in that order, each time with
    /// the weaker of the message's level and the subscription's.
    pub fn route_message(&self, message: &MqttMessage) -> (res: Vec<(ClientId, MqttMessage)>)
        requires
            split_levels(message@.2).len() < usize::MAX,
        ensures
            res@.len() == self.table().matched(split_levels(message@.2), 0).len(),
            forall|i: int|
                0 <= i < res@.len() ==> {
                    let sub = self.table().matched(split_levels(message@.2), 0)[i];
                    &&& (#[trigger] res@[i]).0@ == sub.client@
                    &&& res@[i].1@ == (
                        message@.0,
                        message@.1,
                        message@.2,
                        message@.3,
                        min_level(message@.4, sub.qos.level()),
                    )
                },
    {
        let topic_names = TopicName::parse_from(message.topic());
        let matches = topic_names.get_matches(0, &self.subscriptions);
        let mut res: Vec<(ClientId, MqttMessage)> = Vec::new();
        let mut i: usize = 0;
        while i < matches.len()
            invariant
                i <= matches@.len(),
                matches@ == self.table().matched(split_levels(message@.2), 0),
                res@.len() == i,
                forall|j: int|
                    0 <= j < i ==> {
                        let sub = matches@[j];
                        &&& (#[trigger] res@[j]).0@ == sub.client@
                        &&& res@[j].1@ == (
                            message@.0,
                            message@.1,
                            message@.2,
                            message@.3,
                            min_level(message@.4, sub.qos.level()),
                        )
                    },
            decreases matches@.len() - i,
        {
            let sub = &matches[i];
            let mut delivered = message.duplicate();
            delivered.set_qos(message.qos().min(sub.qos));
            res.push((sub.client.duplicate(), delivered));
            i = i + 1;
        }
        res
    }
}

} // verus!
