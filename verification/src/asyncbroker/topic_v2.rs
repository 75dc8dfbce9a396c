//! Topic trees of the asynchronous broker: each name of a path is a
//! topic below the topic of the names before it, and a topic's identifier
//! is the FNV-1a hash of its whole path.

use vstd::prelude::*;
use vstd::string::StringSliceAdditionalSpecFns;
use crate::hash::{custom_string_hash, fnv1a};

verus! {

broadcast use vstd::string::group_string_axioms;

/// A topic, its sub-topics and its name.
pub struct TopicV2 {
    pub id: u64,
    pub sub_topics: Vec<TopicV2>,
    pub name: String,
}

/// Two topics are the same topic when they have the same identifier.
impl PartialEq for TopicV2 {
    fn eq(&self, other: &TopicV2) -> (r: bool) {
        self.id == other.id
    }
}

impl vstd::std_specs::cmp::PartialEqSpecImpl for TopicV2 {
    open spec fn obeys_eq_spec() -> bool {
        true
    }

    open spec fn eq_spec(&self, other: &TopicV2) -> bool {
        self.id == other.id
    }
}

impl Eq for TopicV2 {}

/// Position of the first `/` of `b` from `i` on, or the length of `b`.
pub open spec fn next_slash(b: Seq<u8>, i: int) -> int
    decreases b.len() - i,
{
    if i >= b.len() || i < 0 {
        b.len() as int
    } else if b[i] == 47 {
        i
    } else {
        next_slash(b, i + 1)
    }
}

/// `b` is an absolute path: it starts with `/`.
pub open spec fn is_absolute(b: Seq<u8>) -> bool {
    b.len() > 0 && b[0] == 47
}

/// Every `/` of `b` from position `from` on is followed by a name: no two
/// `/` in a row and no `/` at the end.
pub open spec fn names_non_empty_from(b: Seq<u8>, from: int) -> bool {
    forall|i: int| #![trigger b[i]] from <= i < b.len() && b[i] == 47 ==> i + 1 < b.len() && b[i + 1] != 47
}

/// Every `/` of `b` is followed by a name.
pub open spec fn names_non_empty(b: Seq<u8>) -> bool {
    names_non_empty_from(b, 0)
}

/// What following the path `b` gives: the hash of the whole path, or an
/// error when it is not absolute or has an empty name.
pub open spec fn path_result(b: Seq<u8>) -> Result<u64, Seq<char>> {
    if !is_absolute(b) {
        Err("Invalid Path"@)
    } else if !names_non_empty(b) {
        Err("il s'est passé une dingeureie (topic_name is empty)"@)
    } else {
        Ok(fnv1a(b))
    }
}

/// Position of the first sub-topic of `ts` from the `i`-th on whose
/// identifier is `id`, or -1.
pub open spec fn child_index(ts: Seq<TopicV2>, id: u64, i: int) -> int
    decreases ts.len() - i,
{
    if i < 0 || i >= ts.len() {
        -1
    } else if ts[i].id == id {
        i
    } else {
        child_index(ts, id, i + 1)
    }
}

/// The first `/` from `i` on is at `i` or after, and within `b`.
pub proof fn lemma_next_slash_bounds(b: Seq<u8>, i: int)
    requires
        0 <= i <= b.len(),
    ensures
        i <= next_slash(b, i) <= b.len(),
        next_slash(b, i) < b.len() ==> b[next_slash(b, i)] == 47,
        forall|j: int| i <= j < next_slash(b, i) ==> b[j] != 47,
    decreases b.len() - i,
{
    if i < b.len() && b[i] != 47 {
        lemma_next_slash_bounds(b, i + 1);
    }
}

/// `b` is the topic whose sub-topics were `subs` once the names of the
/// path `p` from position `start` on are followed below it. The name
/// that runs from `start` to the next `/` is the sub-topic whose
/// identifier is the hash of the path up to that name: the first such
/// sub-topic is followed, or, when there is none, a new topic with that
/// identifier and name is added last; the next names are followed below
/// it. An empty name, or the end of the path, stops the walk.
pub open spec fn names_followed(subs: Seq<TopicV2>, b: TopicV2, p: Seq<u8>, start: int) -> bool
    decreases p.len() + 1 - start,
{
    let e = next_slash(p, start);
    if start < 0 || start >= p.len() || e == start {
        b.sub_topics@ == subs
    } else {
        proof {
            lemma_next_slash_bounds(p, start);
        }
        let id = fnv1a(p.subrange(0, e));
        let k = child_index(subs, id, 0);
        let n = subs.len() as int;
        if k >= 0 {
            &&& b.sub_topics@.len() == subs.len()
            &&& forall|j: int| 0 <= j < n && j != k ==> b.sub_topics@[j] == subs[j]
            &&& b.sub_topics@[k].id == subs[k].id
            &&& b.sub_topics@[k].name@ == subs[k].name@
            &&& names_followed(subs[k].sub_topics@, b.sub_topics@[k], p, e + 1)
        } else {
            &&& b.sub_topics@.len() == n + 1
            &&& forall|j: int| 0 <= j < n ==> b.sub_topics@[j] == subs[j]
            &&& b.sub_topics@[n].id == id
            &&& vstd::utf8::encode_utf8(b.sub_topics@[n].name@) == p.subrange(start, e)
            &&& names_followed(Seq::empty(), b.sub_topics@[n], p, e + 1)
        }
    }
}

/// `b` is the root `a` once the path `p` is followed from it: an absolute
/// path is walked name by name, each name below the previous one; the
/// root itself keeps its identifier and name.
pub open spec fn path_followed(a: TopicV2, b: TopicV2, p: Seq<u8>) -> bool {
    &&& b.id == a.id
    &&& b.name@ == a.name@
    &&& if is_absolute(p) {
        names_followed(a.sub_topics@, b, p, 1)
    } else {
        b.sub_topics@ == a.sub_topics@
    }
}

/// Each name of `p` from `start` on, up to the first empty one, is found
/// below `t`, each below the previous one.
pub open spec fn names_present(t: TopicV2, p: Seq<u8>, start: int) -> bool
    decreases p.len() + 1 - start,
{
    let e = next_slash(p, start);
    if start < 0 || start >= p.len() || e == start {
        true
    } else {
        proof {
            lemma_next_slash_bounds(p, start);
        }
        let k = child_index(t.sub_topics@, fnv1a(p.subrange(0, e)), 0);
        k >= 0 && names_present(t.sub_topics@[k], p, e + 1)
    }
}

/// `a` and `b` are the same tree: same identifiers, names and shape.
pub open spec fn same_tree(a: TopicV2, b: TopicV2) -> bool
    decreases a, a.sub_topics@.len() + 1,
{
    &&& a.id == b.id
    &&& a.name@ == b.name@
    &&& a.sub_topics@.len() == b.sub_topics@.len()
    &&& same_children(a, b, 0)
}

/// The sub-topics of `a` from the `i`-th on are the same trees as those
/// of `b`.
pub open spec fn same_children(a: TopicV2, b: TopicV2, i: int) -> bool
    decreases a, a.sub_topics@.len() - i,
{
    if i < 0 || i >= a.sub_topics@.len() {
        true
    } else {
        proof {
            assert(decreases_to!(a => a.sub_topics@[i]));
        }
        same_tree(a.sub_topics@[i], b.sub_topics@[i]) && same_children(a, b, i + 1)
    }
}

impl TopicV2 {
    /// A topic named `name` without sub-topics.
    pub fn new(id: u64, name: String) -> (r: TopicV2)
        ensures
            r.id == id,
            r.sub_topics@.len() == 0,
            r.name@ == name@,
    {
        TopicV2 { id, sub_topics: Vec::new(), name }
    }

    /// Adds `sub_topic` after the other sub-topics.
    pub fn add_sub_topic(&mut self, sub_topic: TopicV2)
        ensures
            final(self).id == old(self).id,
            final(self).name@ == old(self).name@,
            final(self).sub_topics@ == old(self).sub_topics@.push(sub_topic),
    {
        self.sub_topics.push(sub_topic);
    }
}

impl TopicV2 {
    /// Follows the names of `path` from position `start` on below
    /// `node`, as `names_followed` says: the result is the hash of the
    /// whole path, or an error when an empty name comes first.
    fn follow_names(node: &mut TopicV2, path: &str, start: usize) -> (r: Result<u64, String>)
        requires
            1 <= start <= path.spec_bytes().len(),
            path.spec_bytes()[start - 1] == 47,
        ensures
            final(node).id == old(node).id,
            final(node).name@ == old(node).name@,
            names_followed(old(node).sub_topics@, *final(node), path.spec_bytes(), start as int),
            r is Ok <==> names_non_empty_from(path.spec_bytes(), start - 1),
            r matches Ok(id) ==> id == fnv1a(path.spec_bytes()),
            r matches Err(e) ==> e@ == "il s'est passé une dingeureie (topic_name is empty)"@,
        decreases path.spec_bytes().len() + 1 - start,
    {
        let b = path.as_bytes();
        proof {
            vstd::utf8::encode_utf8_valid_utf8(path@);
            lemma_next_slash_bounds(b@, start as int);
        }
        let mut end = start;
        while end < b.len() && b[end] != 47
            invariant
                start <= end <= b@.len(),
                next_slash(b@, start as int) == next_slash(b@, end as int),
                forall|i: int| start <= i < end ==> b@[i] != 47,
            decreases b.len() - end,
        {
            end = end + 1;
        }
        assert(next_slash(b@, start as int) == end);
        if end == start {
            assert(!names_non_empty_from(b@, start - 1)) by {
                let i: int = start - 1;
                assert(b@[i] == 47);
                if start < b.len() {
                    assert(b@[i + 1] == 47);
                }
            }
            return Err("il s'est passé une dingeureie (topic_name is empty)".to_string());
        }
        proof {
            lemma_boundary_at_slash(b@, start - 1);
            if end < b.len() {
                lemma_boundary_at_slash(b@, end as int);
            } else {
                vstd::utf8::is_char_boundary_start_end_of_seq(b@);
            }
        }
        let (prefix, _) = path.split_at(end);
        let topic_id = custom_string_hash(prefix);
        assert(prefix.spec_bytes() =~= b@.subrange(0, end as int));
        let mut j: usize = 0;
        let mut found = false;
        while !found && j < node.sub_topics.len()
            invariant
                j <= node.sub_topics@.len(),
                found ==> j < node.sub_topics@.len() && child_index(node.sub_topics@, topic_id, 0)
                    == j,
                !found ==> child_index(node.sub_topics@, topic_id, 0) == child_index(
                    node.sub_topics@,
                    topic_id,
                    j as int,
                ),
            decreases node.sub_topics.len() - j + (if found { 0int } else { 1int }),
        {
            if node.sub_topics[j].id == topic_id {
                found = true;
            } else {
                j = j + 1;
            }
        }
        proof {
            lemma_child_index(node.sub_topics@, topic_id, 0);
        }
        let r: Result<u64, String>;
        if found {
            let ghost before = node.sub_topics@;
            let mut child = node.sub_topics.remove(j);
            let ghost old_child = child;
            r = if end < b.len() {
                TopicV2::follow_names(&mut child, path, end + 1)
            } else {
                Ok(topic_id)
            };
            assert(names_followed(old_child.sub_topics@, child, b@, end + 1));
            node.sub_topics.insert(j, child);
            assert(node.sub_topics@[j as int] == child);
            assert forall|k: int| 0 <= k < before.len() && k != j implies node.sub_topics@[k]
                == before[k] by {
                if k < j {
                } else {
                }
            }
        } else {
            let (_, tail) = path.split_at(start);
            proof {
                let t = b@.subrange(start as int, b@.len() as int);
                assert(tail.spec_bytes() =~= t);
                vstd::utf8::valid_utf8_split(b@, start as int);
                if end < b.len() {
                    vstd::utf8::is_char_boundary_iff_not_is_continuation_byte(t, end - start);
                    assert(t[end - start] == b@[end as int]);
                } else {
                    vstd::utf8::is_char_boundary_start_end_of_seq(t);
                }
            }
            let (name, _) = tail.split_at(end - start);
            assert(name.spec_bytes() =~= b@.subrange(start as int, end as int));
            let mut child = TopicV2::new(topic_id, name.to_string());
            let ghost fresh = child;
            assert(fresh.sub_topics@ =~= Seq::<TopicV2>::empty());
            r = if end < b.len() {
                TopicV2::follow_names(&mut child, path, end + 1)
            } else {
                Ok(topic_id)
            };
            assert(names_followed(Seq::empty(), child, b@, end + 1));
            assert(vstd::utf8::encode_utf8(child.name@) == b@.subrange(start as int, end as int));
            let ghost before = node.sub_topics@;
            node.sub_topics.push(child);
            assert(node.sub_topics@[before.len() as int] == child);
        }
        proof {
            assert(b@.subrange(0, b@.len() as int) =~= b@);
            assert(names_followed(old(node).sub_topics@, *node, b@, start as int));
            if end < b.len() {
                assert(names_non_empty_from(b@, start - 1) == names_non_empty_from(b@, end as int)) by {
                    if names_non_empty_from(b@, end as int) {
                        assert forall|i: int| #![trigger b@[i]] start - 1 <= i < b@.len() && b@[i] == 47
                            implies i + 1 < b@.len() && b@[i + 1] != 47 by {
                            if i == start - 1 {
                                assert(b@[start as int] != 47);
                            }
                        }
                    }
                }
            } else {
                assert(names_non_empty_from(b@, start - 1)) by {
                    assert forall|i: int| #![trigger b@[i]] start - 1 <= i < b@.len() && b@[i] == 47
                        implies i + 1 < b@.len() && b@[i + 1] != 47 by {
                        if i == start - 1 {
                            assert(b@[start as int] != 47);
                        }
                    }
                }
            }
        }
        r
    }

    /// Follows the absolute path `path` from `root`, as `path_followed`
    /// says: each name of the path is a topic below the topic of the
    /// names before it, added when missing. The result is the hash of
    /// the whole path, or an error for a path that is not absolute or
    /// holds an empty name; the names before an empty one are followed
    /// all the same.
    pub fn create_topicsGPT(path: &str, root: &mut TopicV2) -> (r: Result<u64, String>)
        ensures
            match r {
                Ok(id) => path_result(path.spec_bytes()) == Ok::<u64, Seq<char>>(id),
                Err(e) => path_result(path.spec_bytes()) == Err::<u64, Seq<char>>(e@),
            },
            path_followed(*old(root), *final(root), path.spec_bytes()),
    {
        let b = path.as_bytes();
        if b.len() == 0 || b[0] != 47 {
            return Err("Invalid Path".to_string());
        }
        TopicV2::follow_names(root, path, 1)
    }
}

/// Position 1 of a valid UTF-8 text that starts with an ASCII byte is
/// the start of a character.
proof fn lemma_boundary_after_ascii(b: Seq<u8>)
    requires
        vstd::utf8::valid_utf8(b),
        b.len() >= 1,
        b[0] < 0x80,
    ensures
        vstd::utf8::is_char_boundary(b, 1),
{
    reveal_with_fuel(vstd::utf8::is_char_boundary, 2);
    vstd::utf8::is_char_boundary_start_end_of_seq(vstd::utf8::pop_first_scalar(b));
}

/// The position after a `/` of a valid UTF-8 text, and the position of a
/// `/`, are starts of characters.
proof fn lemma_boundary_at_slash(b: Seq<u8>, i: int)
    requires
        vstd::utf8::valid_utf8(b),
        0 <= i < b.len(),
        b[i] == 47,
    ensures
        vstd::utf8::is_char_boundary(b, i),
        vstd::utf8::is_char_boundary(b, i + 1),
{
    vstd::utf8::is_char_boundary_iff_not_is_continuation_byte(b, i);
    vstd::utf8::valid_utf8_split(b, i);
    let s = b.subrange(i, b.len() as int);
    lemma_boundary_after_ascii(s);
    if i + 1 < b.len() {
        vstd::utf8::is_char_boundary_iff_not_is_continuation_byte(s, 1);
        vstd::utf8::is_char_boundary_iff_not_is_continuation_byte(b, i + 1);
        assert(s[1] == b[i + 1]);
    } else {
        vstd::utf8::is_char_boundary_start_end_of_seq(b);
    }
}

/// A position that `child_index` gives holds a sub-topic with that
/// identifier.
proof fn lemma_child_index(ts: Seq<TopicV2>, id: u64, i: int)
    ensures
        child_index(ts, id, i) >= -1,
        child_index(ts, id, i) >= 0 ==> i <= child_index(ts, id, i) < ts.len() && ts[child_index(
            ts,
            id,
            i,
        )].id == id,
    decreases ts.len() - i,
{
    if 0 <= i < ts.len() && ts[i].id != id {
        lemma_child_index(ts, id, i + 1);
    }
}

/// No sub-topic from the `i`-th on has the identifier `id` when
/// `child_index` finds none.
proof fn lemma_child_index_none(ts: Seq<TopicV2>, id: u64, i: int, j: int)
    requires
        0 <= i <= j < ts.len(),
        child_index(ts, id, i) == -1,
    ensures
        ts[j].id != id,
    decreases j - i,
{
    if i < j {
        lemma_child_index_none(ts, id, i + 1, j);
    }
}

/// The first sub-topic with identifier `id` is at `n` when none before
/// has it.
proof fn lemma_child_index_from(ts: Seq<TopicV2>, id: u64, i: int, n: int)
    requires
        0 <= i <= n < ts.len(),
        ts[n].id == id,
        forall|j: int| i <= j < n ==> #[trigger] ts[j].id != id,
    ensures
        child_index(ts, id, i) == n,
    decreases n - i,
{
    if i < n {
        lemma_child_index_from(ts, id, i + 1, n);
    }
}

/// `child_index` only looks at identifiers.
proof fn lemma_child_index_same_ids(a: Seq<TopicV2>, b: Seq<TopicV2>, id: u64, i: int)
    requires
        a.len() == b.len(),
        forall|j: int| 0 <= j < a.len() ==> #[trigger] a[j].id == b[j].id,
    ensures
        child_index(a, id, i) == child_index(b, id, i),
    decreases a.len() - i,
{
    if 0 <= i < a.len() {
        lemma_child_index_same_ids(a, b, id, i + 1);
    }
}

/// Every tree is the same tree as itself.
proof fn lemma_same_tree_refl(t: TopicV2)
    ensures
        same_tree(t, t),
    decreases t, t.sub_topics@.len() + 1,
{
    lemma_same_children_refl(t, 0);
}

/// The sub-topics of a tree are the same trees as themselves.
proof fn lemma_same_children_refl(t: TopicV2, i: int)
    ensures
        same_children(t, t, i),
    decreases t, t.sub_topics@.len() - i,
{
    if 0 <= i < t.sub_topics@.len() {
        assert(decreases_to!(t => t.sub_topics@[i]));
        lemma_same_tree_refl(t.sub_topics@[i]);
        lemma_same_children_refl(t, i + 1);
    }
}

/// The sub-topics from the `i`-th on are the same trees when each one is.
proof fn lemma_same_children_from(a: TopicV2, b: TopicV2, i: int)
    requires
        0 <= i,
        forall|j: int| i <= j < a.sub_topics@.len() ==> #[trigger] same_tree(a.sub_topics@[j], b.sub_topics@[j]),
    ensures
        same_children(a, b, i),
    decreases a.sub_topics@.len() - i,
{
    if i < a.sub_topics@.len() {
        assert(same_tree(a.sub_topics@[i], b.sub_topics@[i]));
        lemma_same_children_from(a, b, i + 1);
    }
}

/// Once the names of a path are followed, they are found along it.
proof fn lemma_followed_present(subs: Seq<TopicV2>, b: TopicV2, p: Seq<u8>, start: int)
    requires
        names_followed(subs, b, p, start),
    ensures
        names_present(b, p, start),
    decreases p.len() + 1 - start,
{
    let e = next_slash(p, start);
    if !(start < 0 || start >= p.len() || e == start) {
        lemma_next_slash_bounds(p, start);
        let id = fnv1a(p.subrange(0, e));
        let k = child_index(subs, id, 0);
        let y = b.sub_topics@;
        lemma_child_index(subs, id, 0);
        if k >= 0 {
            assert forall|j: int| 0 <= j < subs.len() implies #[trigger] subs[j].id == y[j].id by {
            }
            lemma_child_index_same_ids(subs, y, id, 0);
            lemma_followed_present(subs[k].sub_topics@, y[k], p, e + 1);
        } else {
            let n = subs.len() as int;
            assert forall|j: int| 0 <= j < n implies #[trigger] y[j].id != id by {
                lemma_child_index_none(subs, id, 0, j);
            }
            lemma_child_index_from(y, id, 0, n);
            lemma_followed_present(Seq::empty(), y[n], p, e + 1);
        }
    }
}

/// Following names that are all there changes nothing: the topic stays
/// the same tree.
proof fn lemma_present_unchanged(a: TopicV2, c: TopicV2, p: Seq<u8>, start: int)
    requires
        names_present(a, p, start),
        names_followed(a.sub_topics@, c, p, start),
        c.id == a.id,
        c.name@ == a.name@,
    ensures
        same_tree(a, c),
    decreases p.len() + 1 - start,
{
    let e = next_slash(p, start);
    let x = a.sub_topics@;
    let y = c.sub_topics@;
    if start < 0 || start >= p.len() || e == start {
        assert forall|j: int| 0 <= j < x.len() implies #[trigger] same_tree(x[j], y[j]) by {
            lemma_same_tree_refl(x[j]);
        }
    } else {
        lemma_next_slash_bounds(p, start);
        let k = child_index(x, fnv1a(p.subrange(0, e)), 0);
        lemma_child_index(x, fnv1a(p.subrange(0, e)), 0);
        lemma_present_unchanged(x[k], y[k], p, e + 1);
        assert forall|j: int| 0 <= j < x.len() implies #[trigger] same_tree(x[j], y[j]) by {
            if j != k {
                lemma_same_tree_refl(x[j]);
            }
        }
    }
    lemma_same_children_from(a, c, 0);
}

/// Following the same path twice: the second time leaves the tree as the
/// first time made it.
pub proof fn lemma_path_followed_twice(a: TopicV2, b: TopicV2, c: TopicV2, p: Seq<u8>)
    requires
        path_followed(a, b, p),
        path_followed(b, c, p),
    ensures
        same_tree(b, c),
{
    if is_absolute(p) {
        lemma_followed_present(a.sub_topics@, b, p, 1);
        lemma_present_unchanged(b, c, p, 1);
    } else {
        assert forall|j: int| 0 <= j < b.sub_topics@.len() implies #[trigger] same_tree(
            b.sub_topics@[j],
            c.sub_topics@[j],
        ) by {
            lemma_same_tree_refl(b.sub_topics@[j]);
        }
        lemma_same_children_from(b, c, 0);
    }
}

} // verus!
