//! Topic trees of the prototype: each topic has an identifier and holds
//! its sub-topics.

use vstd::prelude::*;
use std::collections::hash_map::DefaultHasher;
use std::hash::Hasher;
use vstd::std_specs::hash::DefaultHasherAdditionalSpecFns;
use vstd::string::StringSliceAdditionalSpecFns;

verus! {

/// A topic and its sub-topics.
pub struct Topic {
    pub topics: Vec<Topic>,
    pub id: u64,
}

/// The first topic with identifier `id` in a depth-first walk of `t`
/// that visits a topic before its sub-topics, and sub-topics in order.
pub open spec fn find_topic(t: Topic, id: u64) -> Option<Topic>
    decreases t,
{
    if t.id == id {
        Some(t)
    } else {
        find_in_topics(t.topics@, id, 0)
    }
}

/// The first topic with identifier `id` in the trees of `ts` from the
/// `i`-th one on.
pub open spec fn find_in_topics(ts: Seq<Topic>, id: u64, i: int) -> Option<Topic>
    decreases ts, ts.len() - i,
{
    if i < 0 || i >= ts.len() {
        None
    } else {
        match find_topic(ts[i], id) {
            Some(found) => Some(found),
            None => find_in_topics(ts, id, i + 1),
        }
    }
}

impl Topic {
    /// A topic without sub-topics.
    pub fn new(id: u64) -> (r: Topic)
        ensures
            r.id == id,
            r.topics@.len() == 0,
    {
        Topic { topics: Vec::new(), id }
    }

    /// The first topic with identifier `id` in this tree, this topic
    /// coming before its sub-topics.
    pub fn get_sub_topic_by_id(&self, id: u64) -> (r: Option<&Topic>)
        ensures
            match r {
                Some(t) => find_topic(*self, id) == Some(*t),
                None => find_topic(*self, id) is None,
            },
        decreases self,
    {
        if self.id == id {
            Some(self)
        } else {
            let mut i: usize = 0;
            while i < self.topics.len()
                invariant
                    i <= self.topics@.len(),
                    self.id != id,
                    find_topic(*self, id) == find_in_topics(self.topics@, id, i as int),
                decreases self.topics.len() - i,
            {
                let topic = &self.topics[i];
                assert(decreases_to!(self => self.topics@[i as int]));
                if let Some(new_topic) = topic.get_sub_topic_by_id(id) {
                    return Some(new_topic);
                }
                i = i + 1;
            }
            None
        }
    }

    /// Adds `topic` after the other sub-topics.
    pub fn add_sub_topic(&mut self, topic: Topic)
        ensures
            final(self).id == old(self).id,
            final(self).topics@ == old(self).topics@.push(topic),
    {
        self.topics.push(topic);
    }

    /// The identifier of the topic.
    pub fn get_id(&self) -> (r: u64)
        ensures
            r == self.id,
    {
        self.id
    }
}

/// A topic whose sub-topics are found by the hash of their name.
pub struct TopicV2 {
    pub id: u64,
    pub sub_topics: Vec<TopicV2>,
}

/// Two topics are the same topic when they have the same identifier.
impl PartialEq for TopicV2 {
    fn eq(&self, other: &TopicV2) -> (r: bool) {
        self.id == other.id
    }
}

impl vstd::std_specs::cmp::PartialEqSpecImpl for TopicV2 {
    open spec fn obeys_eq_spec() -> bool {
        true
    }

    open spec fn eq_spec(&self, other: &TopicV2) -> bool {
        self.id == other.id
    }
}

impl Eq for TopicV2 {}

/// Identifier of the topic named `name`: what the standard hasher gives
/// for the name written as a string, that is its bytes then 0xFF.
pub open spec fn name_hash(name: Seq<u8>) -> u64 {
    DefaultHasher::spec_finish(seq![name, seq![0xffu8]])
}

/// The pieces of `b` between the bytes `/`, as `str::split` gives them.
pub open spec fn split_slash(b: Seq<u8>) -> Seq<Seq<u8>>
    decreases b.len(),
{
    if b.len() == 0 {
        seq![Seq::empty()]
    } else {
        let r = split_slash(b.drop_last());
        if b.last() == 47 {
            r.push(Seq::empty())
        } else {
            r.update(r.len() - 1, r.last().push(b.last()))
        }
    }
}

/// Identifiers of the non-empty names among `pieces`, in order.
pub open spec fn hashed_names(pieces: Seq<Seq<u8>>) -> Seq<u64>
    decreases pieces.len(),
{
    if pieces.len() == 0 {
        Seq::empty()
    } else {
        let r = hashed_names(pieces.drop_last());
        if pieces.last().len() > 0 {
            r.push(name_hash(pieces.last()))
        } else {
            r
        }
    }
}

/// Identifiers of the topics named along the path `b`, from the root;
/// empty names are skipped.
pub open spec fn path_ids(b: Seq<u8>) -> Seq<u64> {
    hashed_names(split_slash(b))
}

/// Position of the first topic of `ts` from the `i`-th on whose
/// identifier is `id`, or -1.
pub open spec fn child_index(ts: Seq<TopicV2>, id: u64, i: int) -> int
    decreases ts.len() - i,
{
    if i < 0 || i >= ts.len() {
        -1
    } else if ts[i].id == id {
        i
    } else {
        child_index(ts, id, i + 1)
    }
}

/// A position that `child_index` gives holds a topic with that
/// identifier.
proof fn lemma_child_index(ts: Seq<TopicV2>, id: u64, i: int)
    ensures
        child_index(ts, id, i) >= -1,
        child_index(ts, id, i) >= 0 ==> i <= child_index(ts, id, i) < ts.len() && ts[child_index(
            ts,
            id,
            i,
        )].id == id,
    decreases ts.len() - i,
{
    if 0 <= i < ts.len() && ts[i].id != id {
        lemma_child_index(ts, id, i + 1);
    }
}

/// `b` is a topic with identifier `id` whose only descendants are one
/// topic for each identifier of `ids`, each below the previous one.
pub open spec fn chain(b: TopicV2, id: u64, ids: Seq<u64>) -> bool
    decreases ids.len(),
{
    &&& b.id == id
    &&& if ids.len() == 0 {
        b.sub_topics@.len() == 0
    } else {
        b.sub_topics@.len() == 1 && chain(b.sub_topics@[0], ids[0], ids.drop_first())
    }
}

/// `b` is `a` once the path `ids` is there: from `a`, the first sub-topic
/// with identifier `ids[0]` is followed, or a new one is added last; and
/// so on down the path.
pub open spec fn path_added(a: TopicV2, b: TopicV2, ids: Seq<u64>) -> bool
    decreases ids.len(),
{
    &&& b.id == a.id
    &&& if ids.len() == 0 {
        b.sub_topics@ == a.sub_topics@
    } else {
        let k = child_index(a.sub_topics@, ids[0], 0);
        if k >= 0 {
            &&& b.sub_topics@.len() == a.sub_topics@.len()
            &&& forall|j: int|
                0 <= j < a.sub_topics@.len() && j != k ==> b.sub_topics@[j] == a.sub_topics@[j]
            &&& path_added(a.sub_topics@[k], b.sub_topics@[k], ids.drop_first())
        } else {
            &&& b.sub_topics@.len() == a.sub_topics@.len() + 1
            &&& forall|j: int| 0 <= j < a.sub_topics@.len() ==> b.sub_topics@[j] == a.sub_topics@[j]
            &&& chain(b.sub_topics@[a.sub_topics@.len() as int], ids[0], ids.drop_first())
        }
    }
}

/// Completing a topic without sub-topics along a path builds a chain.
proof fn lemma_path_from_empty(a: TopicV2, b: TopicV2, ids: Seq<u64>)
    requires
        a.sub_topics@.len() == 0,
        path_added(a, b, ids),
    ensures
        chain(b, a.id, ids),
{
    if ids.len() > 0 {
        assert(child_index(a.sub_topics@, ids[0], 0) == -1);
    }
}

/// Each identifier of `ids` names a sub-topic of the previous one, from
/// `t` down: following the path finds a topic at each level.
pub open spec fn has_path(t: TopicV2, ids: Seq<u64>) -> bool
    decreases ids.len(),
{
    ids.len() == 0 || {
        let k = child_index(t.sub_topics@, ids[0], 0);
        k >= 0 && has_path(t.sub_topics@[k], ids.drop_first())
    }
}

/// `b` has as many sub-topics as `a` at each level of the path `ids`.
pub open spec fn no_growth(a: TopicV2, b: TopicV2, ids: Seq<u64>) -> bool
    decreases ids.len(),
{
    &&& b.sub_topics@.len() == a.sub_topics@.len()
    &&& ids.len() > 0 ==> {
        let k = child_index(a.sub_topics@, ids[0], 0);
        k >= 0 ==> no_growth(a.sub_topics@[k], b.sub_topics@[k], ids.drop_first())
    }
}

/// No topic from the `i`-th on has the identifier `id` when `child_index`
/// finds none.
proof fn lemma_child_index_none(ts: Seq<TopicV2>, id: u64, i: int, j: int)
    requires
        0 <= i <= j < ts.len(),
        child_index(ts, id, i) == -1,
    ensures
        ts[j].id != id,
    decreases j - i,
{
    if i < j {
        lemma_child_index_none(ts, id, i + 1, j);
    }
}

/// `child_index` only looks at identifiers.
proof fn lemma_child_index_same_ids(a: Seq<TopicV2>, b: Seq<TopicV2>, id: u64, i: int)
    requires
        a.len() == b.len(),
        forall|j: int| 0 <= j < a.len() ==> #[trigger] a[j].id == b[j].id,
    ensures
        child_index(a, id, i) == child_index(b, id, i),
    decreases a.len() - i,
{
    if 0 <= i < a.len() {
        lemma_child_index_same_ids(a, b, id, i + 1);
    }
}

/// A chain of topics holds its own path.
proof fn lemma_chain_has_path(b: TopicV2, id: u64, ids: Seq<u64>)
    requires
        chain(b, id, ids),
    ensures
        has_path(b, ids),
    decreases ids.len(),
{
    if ids.len() > 0 {
        lemma_chain_has_path(b.sub_topics@[0], ids[0], ids.drop_first());
        assert(b.sub_topics@[0].id == ids[0]);
        assert(child_index(b.sub_topics@, ids[0], 0) == 0);
    }
}

/// Once a path is followed, its topics are found along it.
proof fn lemma_added_path_found(a: TopicV2, b: TopicV2, ids: Seq<u64>)
    requires
        path_added(a, b, ids),
    ensures
        has_path(b, ids),
    decreases ids.len(),
{
    if ids.len() > 0 {
        let (x, y) = (a.sub_topics@, b.sub_topics@);
        let k = child_index(x, ids[0], 0);
        lemma_child_index(x, ids[0], 0);
        if k >= 0 {
            assert forall|j: int| 0 <= j < x.len() implies #[trigger] x[j].id == y[j].id by {
                if j == k {
                    assert(path_added(x[k], y[k], ids.drop_first()));
                }
            }
            lemma_child_index_same_ids(x, y, ids[0], 0);
            lemma_added_path_found(x[k], y[k], ids.drop_first());
        } else {
            let n = x.len() as int;
            assert forall|j: int| 0 <= j < n implies y[j].id != ids[0] by {
                lemma_child_index_none(x, ids[0], 0, j);
            }
            lemma_child_index_from(y, ids[0], 0, n);
            lemma_chain_has_path(y[n], ids[0], ids.drop_first());
        }
    }
}

/// The first topic with identifier `id` is at `n` when none before has it.
proof fn lemma_child_index_from(ts: Seq<TopicV2>, id: u64, i: int, n: int)
    requires
        0 <= i <= n < ts.len(),
        ts[n].id == id,
        forall|j: int| i <= j < n ==> #[trigger] ts[j].id != id,
    ensures
        child_index(ts, id, i) == n,
    decreases n - i,
{
    if i < n {
        lemma_child_index_from(ts, id, i + 1, n);
    }
}

/// Following a path that is already there adds no topic at any level.
proof fn lemma_present_path_no_growth(a: TopicV2, b: TopicV2, ids: Seq<u64>)
    requires
        has_path(a, ids),
        path_added(a, b, ids),
    ensures
        no_growth(a, b, ids),
    decreases ids.len(),
{
    if ids.len() > 0 {
        let k = child_index(a.sub_topics@, ids[0], 0);
        lemma_present_path_no_growth(a.sub_topics@[k], b.sub_topics@[k], ids.drop_first());
    }
}

/// `a` and `b` are the same tree: same identifiers and shape.
pub open spec fn same_tree(a: TopicV2, b: TopicV2) -> bool
    decreases a, a.sub_topics@.len() + 1,
{
    &&& a.id == b.id
    &&& a.sub_topics@.len() == b.sub_topics@.len()
    &&& same_children(a, b, 0)
}

/// The sub-topics of `a` from the `i`-th on are the same trees as those
/// of `b`.
pub open spec fn same_children(a: TopicV2, b: TopicV2, i: int) -> bool
    decreases a, a.sub_topics@.len() - i,
{
    if i < 0 || i >= a.sub_topics@.len() {
        true
    } else {
        proof {
            assert(decreases_to!(a => a.sub_topics@[i]));
        }
        same_tree(a.sub_topics@[i], b.sub_topics@[i]) && same_children(a, b, i + 1)
    }
}

/// Every tree is the same tree as itself.
proof fn lemma_same_tree_refl(t: TopicV2)
    ensures
        same_tree(t, t),
    decreases t, t.sub_topics@.len() + 1,
{
    lemma_same_children_refl(t, 0);
}

/// The sub-topics of a tree are the same trees as themselves.
proof fn lemma_same_children_refl(t: TopicV2, i: int)
    ensures
        same_children(t, t, i),
    decreases t, t.sub_topics@.len() - i,
{
    if 0 <= i < t.sub_topics@.len() {
        assert(decreases_to!(t => t.sub_topics@[i]));
        lemma_same_tree_refl(t.sub_topics@[i]);
        lemma_same_children_refl(t, i + 1);
    }
}

/// The sub-topics from the `i`-th on are the same trees when each one is.
proof fn lemma_same_children_from(a: TopicV2, b: TopicV2, i: int)
    requires
        0 <= i,
        forall|j: int| i <= j < a.sub_topics@.len() ==> #[trigger] same_tree(a.sub_topics@[j], b.sub_topics@[j]),
    ensures
        same_children(a, b, i),
    decreases a.sub_topics@.len() - i,
{
    if i < a.sub_topics@.len() {
        assert(same_tree(a.sub_topics@[i], b.sub_topics@[i]));
        lemma_same_children_from(a, b, i + 1);
    }
}

/// Following a path that is already there leaves the same tree.
proof fn lemma_present_path_same_tree(a: TopicV2, b: TopicV2, ids: Seq<u64>)
    requires
        has_path(a, ids),
        path_added(a, b, ids),
    ensures
        same_tree(a, b),
    decreases ids.len(),
{
    let x = a.sub_topics@;
    let y = b.sub_topics@;
    if ids.len() == 0 {
        assert forall|j: int| 0 <= j < x.len() implies #[trigger] same_tree(x[j], y[j]) by {
            lemma_same_tree_refl(x[j]);
        }
    } else {
        let k = child_index(x, ids[0], 0);
        lemma_present_path_same_tree(x[k], y[k], ids.drop_first());
        assert forall|j: int| 0 <= j < x.len() implies #[trigger] same_tree(x[j], y[j]) by {
            if j != k {
                lemma_same_tree_refl(x[j]);
            }
        }
    }
    lemma_same_children_from(a, b, 0);
}

/// Following the same path twice: after the first time each topic of
/// the path is found along it, and the second time adds no topic and
/// leaves the same tree.
pub proof fn lemma_path_followed_twice(a: TopicV2, b: TopicV2, c: TopicV2, ids: Seq<u64>)
    requires
        path_added(a, b, ids),
        path_added(b, c, ids),
    ensures
        has_path(b, ids),
        no_growth(b, c, ids),
        same_tree(b, c),
{
    lemma_added_path_found(a, b, ids);
    lemma_present_path_no_growth(b, c, ids);
    lemma_present_path_same_tree(b, c, ids);
}

/// Identifier of the topic named `name`.
pub(crate) fn topic_name_hash(name: &Vec<u8>) -> (r: u64)
    ensures
        r == name_hash(name@),
{
    let mut hasher = DefaultHasher::new();
    hasher.write(name.as_slice());
    assert(hasher@ =~= seq![name@]);
    let end: Vec<u8> = vec![0xff];
    assert(end@ =~= seq![0xffu8]);
    hasher.write(end.as_slice());
    assert(hasher@ =~= seq![name@, seq![0xffu8]]);
    hasher.finish()
}

/// Identifiers of the topics named along `path`.
fn path_topic_ids(path: &str) -> (r: Vec<u64>)
    ensures
        r@ == path_ids(path.spec_bytes()),
{
    let b = path.as_bytes();
    let mut ids: Vec<u64> = Vec::new();
    let mut current: Vec<u8> = Vec::new();
    let mut i: usize = 0;
    assert(b@.take(0) =~= Seq::<u8>::empty());
    while i < b.len()
        invariant
            i <= b@.len(),
            ids@ == hashed_names(split_slash(b@.take(i as int)).drop_last()),
            current@ == split_slash(b@.take(i as int)).last(),
            split_slash(b@.take(i as int)).len() >= 1,
        decreases b.len() - i,
    {
        let c = b[i];
        let ghost p = split_slash(b@.take(i as int));
        assert(b@.take(i + 1).drop_last() =~= b@.take(i as int));
        if c == 47 {
            assert(p.push(Seq::empty()).drop_last() =~= p);
            assert(p =~= p.drop_last().push(p.last()));
            if current.len() > 0 {
                let h = topic_name_hash(&current);
                ids.push(h);
            }
            current = Vec::new();
            assert(current@ =~= Seq::<u8>::empty());
        } else {
            assert(p.update(p.len() - 1, p.last().push(c)).drop_last() =~= p.drop_last());
            current.push(c);
        }
        i = i + 1;
    }
    let ghost p = split_slash(b@.take(i as int));
    assert(b@.take(i as int) =~= b@);
    assert(p =~= p.drop_last().push(p.last()));
    if current.len() > 0 {
        let h = topic_name_hash(&current);
        ids.push(h);
    }
    ids
}

impl TopicV2 {
    /// A topic without sub-topics.
    pub fn new(id: u64) -> (r: TopicV2)
        ensures
            r.id == id,
            r.sub_topics@.len() == 0,
    {
        TopicV2 { id, sub_topics: Vec::new() }
    }

    /// Adds `sub_topic` after the other sub-topics.
    pub fn add_sub_topic(&mut self, sub_topic: TopicV2)
        ensures
            final(self).id == old(self).id,
            final(self).sub_topics@ == old(self).sub_topics@.push(sub_topic),
    {
        self.sub_topics.push(sub_topic);
    }

    /// Follows or adds the topics of `ids` from the `i`-th one on, below
    /// `node`; returns the identifier of the last topic reached.
    fn descend(node: &mut TopicV2, ids: &Vec<u64>, i: usize) -> (r: u64)
        requires
            i <= ids@.len(),
        ensures
            path_added(*old(node), *final(node), ids@.skip(i as int)),
            r == if i == ids@.len() {
                old(node).id
            } else {
                ids@.last()
            },
        decreases ids@.len() - i,
    {
        if i == ids.len() {
            assert(ids@.skip(i as int).len() == 0);
            return node.id;
        }
        let topic_id = ids[i];
        let ghost rest = ids@.skip(i + 1);
        assert(ids@.skip(i as int).drop_first() =~= rest);
        assert(ids@.skip(i as int)[0] == topic_id);
        let mut j: usize = 0;
        let mut found = false;
        while !found && j < node.sub_topics.len()
            invariant
                j <= node.sub_topics@.len(),
                found ==> j < node.sub_topics@.len() && child_index(node.sub_topics@, topic_id, 0)
                    == j,
                !found ==> child_index(node.sub_topics@, topic_id, 0) == child_index(
                    node.sub_topics@,
                    topic_id,
                    j as int,
                ),
            decreases node.sub_topics.len() - j + (if found { 0int } else { 1int }),
        {
            if node.sub_topics[j].id == topic_id {
                found = true;
            } else {
                j = j + 1;
            }
        }
        proof {
            lemma_child_index(node.sub_topics@, topic_id, 0);
        }
        let r: u64;
        if found {
            let ghost before = node.sub_topics@;
            let mut child = node.sub_topics.remove(j);
            r = TopicV2::descend(&mut child, ids, i + 1);
            node.sub_topics.insert(j, child);
            assert forall|k: int| 0 <= k < before.len() && k != j implies node.sub_topics@[k]
                == before[k] by {
                if k < j {
                } else {
                }
            }
        } else {
            let mut child = TopicV2::new(topic_id);
            let ghost fresh = child;
            r = TopicV2::descend(&mut child, ids, i + 1);
            proof {
                lemma_path_from_empty(fresh, child, rest);
            }
            node.sub_topics.push(child);
        }
        r
    }

    /// Follows the path `path` from `root`, topic names being the
    /// non-empty pieces between `/`; a name that no sub-topic has is added
    /// as a new topic. Returns the identifier of the last topic of the
    /// path, or that of the root for a path without names.
    pub fn create_topicsGPT(path: &str, root: &mut TopicV2) -> (r: u64)
        ensures
            path_added(*old(root), *final(root), path_ids(path.spec_bytes())),
            r == if path_ids(path.spec_bytes()).len() == 0 {
                old(root).id
            } else {
                path_ids(path.spec_bytes()).last()
            },
    {
        let ids = path_topic_ids(path);
        assert(ids@.skip(0) =~= ids@);
        TopicV2::descend(root, &ids, 0)
    }
}

} // verus!
