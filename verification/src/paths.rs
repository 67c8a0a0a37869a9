//! Key paths into a JSON tree: reading along a path, and setting the value at
//! its end while creating the objects on the way.

use crate::json::{
    child, find_last, get_in, lemma_entries_keys, lemma_entries_last_match, lemma_entries_replace,
    opt_model, Json, JsonModel,
};
use vstd::prelude::*;

verus! {

/// The keys that a slice of string slices spells out.
pub open spec fn keys_of(path: Seq<&str>) -> Seq<Seq<char>> {
    Seq::new(path.len(), |i: int| path[i]@)
}

/// The object to descend into under `key`: the member itself where it is an
/// object, an empty object where it is missing or anything else.
pub open spec fn step_into(node: JsonModel, key: Seq<char>) -> JsonModel {
    match node.get(key) {
        Some(child) => if child is Object {
            child
        } else {
            JsonModel::empty_object()
        },
        None => JsonModel::empty_object(),
    }
}

/// `doc` with the value at the end of `path` set to `value`.
///
/// Every key but the last is descended into; a member that is missing or not
/// an object is replaced by an empty object on the way. The last key is bound
/// to `value`. Members beside the path stay as they are. A node that is not
/// an object, and the empty path, leave the document unchanged.
pub open spec fn set_path(doc: JsonModel, path: Seq<Seq<char>>, value: JsonModel) -> JsonModel
    decreases path.len(),
{
    if path.len() == 0 {
        doc
    } else if path.len() == 1 {
        doc.with(path[0], value)
    } else {
        doc.with(path[0], set_path(step_into(doc, path[0]), path.drop_first(), value))
    }
}

/// Whether two paths part ways: at some position that both have, they name
/// different keys, and they agree before it.
pub open spec fn diverge(p: Seq<Seq<char>>, q: Seq<Seq<char>>) -> bool {
    exists|i: int|
        0 <= i < p.len() && i < q.len() && #[trigger] p[i] != q[i] && p.subrange(0, i)
            == q.subrange(0, i)
}

/// Reading along a path that ends in `key` is reading along the path before
/// it and taking the member under `key`.
pub proof fn lemma_at_push(doc: JsonModel, path: Seq<Seq<char>>, key: Seq<char>)
    ensures
        doc.at(path.push(key)) == get_in(doc.at(path), key),
    decreases path.len(),
{
    let longer = path.push(key);
    if path.len() == 0 {
        assert(longer.drop_first() =~= path);
        match doc.get(key) {
            Some(member) => {
                assert(member.at(path) == Some(member));
            },
            None => {},
        }
    } else {
        assert(longer[0] == path[0]);
        assert(longer.drop_first() =~= path.drop_first().push(key));
        match doc.get(path[0]) {
            Some(member) => {
                lemma_at_push(member, path.drop_first(), key);
            },
            None => {},
        }
    }
}

/// Where something is found at the end of a path, something is found at the
/// end of each of its beginnings.
pub proof fn lemma_at_prefix(doc: JsonModel, path: Seq<Seq<char>>, n: int)
    requires
        0 <= n <= path.len(),
        doc.at(path) is Some,
    ensures
        doc.at(path.take(n)) is Some,
    decreases path.len() - n,
{
    if n < path.len() {
        lemma_at_prefix(doc, path, n + 1);
        assert(path.take(n + 1) =~= path.take(n).push(path[n]));
        lemma_at_push(doc, path.take(n), path[n]);
    } else {
        assert(path.take(n) =~= path);
    }
}

/// The node reached by following `path` from `doc`.
pub fn node_at<'a>(doc: &'a Json, path: &[&str]) -> (r: Option<&'a Json>)
    ensures
        opt_model(r) == doc@.at(keys_of(path@)),
{
    let mut cur: Option<&Json> = Some(doc);
    let mut i: usize = 0;
    assert(keys_of(path@).take(0) =~= Seq::<Seq<char>>::empty());
    while i < path.len()
        invariant
            i <= path.len(),
            opt_model(cur) == doc@.at(keys_of(path@).take(i as int)),
        decreases path.len() - i,
    {
        proof {
            let keys = keys_of(path@);
            assert(keys.take(i + 1) =~= keys.take(i as int).push(keys[i as int]));
            lemma_at_push(doc@, keys.take(i as int), keys[i as int]);
        }
        cur = child(cur, path[i]);
        i += 1;
    }
    assert(keys_of(path@).take(path.len() as int) =~= keys_of(path@));
    cur
}

/// Sets the value at the end of `path[start..]` below `node`, in place.
pub fn set_below(node: &mut Json, path: &[&str], start: usize, value: Json)
    requires
        start <= path.len(),
    ensures
        final(node)@ == set_path(
            old(node)@,
            keys_of(path@).subrange(start as int, path.len() as int),
            value@,
        ),
    decreases path.len() - start,
{
    let ghost rest = keys_of(path@).subrange(start as int, path.len() as int);
    let ghost m0 = node@;
    if start >= path.len() || !node.is_object() {
        assert(set_path(m0, rest, value@) == m0);
        return ;
    }
    let key = path[start];
    assert(rest[0] == key@);
    if start + 1 == path.len() {
        node.insert(key, value);
        return ;
    }
    let fresh = match node.get(key) {
        Some(member) => !member.is_object(),
        None => true,
    };
    if fresh {
        node.insert(key, Json::empty_object());
    }
    let ghost m1 = node@;
    assert(m1.get(key@) == Some(step_into(m0, key@)));
    assert(rest.drop_first() =~= keys_of(path@).subrange(start + 1, path.len() as int));
    assert forall|x: JsonModel| m1.with(key@, x) == m0.with(key@, x) by {
        assert(m1->Object_0.insert(key@, x) =~= m0->Object_0.insert(key@, x));
    }
    match node {
        Json::Object(entries) => {
            match find_last(entries, key) {
                Some(i) => {
                    let ghost before = entries@;
                    proof {
                        lemma_entries_last_match(before, key@, i as int);
                    }
                    set_below(&mut entries[i].1, path, start + 1, value);
                    proof {
                        assert(entries@ =~= before.update(i as int, entries@[i as int]));
                        lemma_entries_replace(before, i as int, entries@[i as int]);
                    }
                },
                None => {
                    proof {
                        lemma_entries_keys(entries@, key@);
                    }
                },
            }
        },
        _ => {},
    }
}

/// After `set_path` on an object, the value is found at the end of the path.
pub proof fn lemma_set_path_reads_back(doc: JsonModel, path: Seq<Seq<char>>, value: JsonModel)
    requires
        doc is Object,
        path.len() > 0,
    ensures
        set_path(doc, path, value).at(path) == Some(value),
    decreases path.len(),
{
    let rest = path.drop_first();
    if path.len() == 1 {
        assert(value.at(rest) == Some(value));
    } else {
        lemma_set_path_reads_back(step_into(doc, path[0]), rest, value);
    }
}

/// `set_path` leaves every path that parts ways with the one it sets as it
/// was: what was found there is still found, and what was missing is still
/// missing.
pub proof fn lemma_set_path_keeps_others(
    doc: JsonModel,
    path: Seq<Seq<char>>,
    value: JsonModel,
    other: Seq<Seq<char>>,
)
    requires
        diverge(other, path),
    ensures
        set_path(doc, path, value).at(other) == doc.at(other),
    decreases path.len(),
{
    let i = choose|i: int|
        0 <= i < other.len() && i < path.len() && #[trigger] other[i] != path[i] && other.subrange(
            0,
            i,
        ) == path.subrange(0, i);
    let after = set_path(doc, path, value);
    if !(doc is Object) {
        assert(after == doc);
    } else if i == 0 {
        assert(after.get(other[0]) == doc.get(other[0]));
    } else {
        assert(other[0] == other.subrange(0, i)[0]);
        assert(path[0] == path.subrange(0, i)[0]);
        let child = step_into(doc, path[0]);
        let p1 = path.drop_first();
        let o1 = other.drop_first();
        assert(o1.subrange(0, i - 1) =~= other.subrange(0, i).drop_first());
        assert(p1.subrange(0, i - 1) =~= path.subrange(0, i).drop_first());
        assert(o1[i - 1] != p1[i - 1]);
        lemma_set_path_keeps_others(child, p1, value, o1);
        assert(after == doc.with(path[0], set_path(child, p1, value)));
        assert(after.get(other[0]) == Some(set_path(child, p1, value)));
        assert(after.at(other) == child.at(o1));
        match doc.get(path[0]) {
            Some(c) => {
                if !(c is Object) {
                    lemma_off_leaf(c, o1);
                    lemma_off_object(o1);
                }
            },
            None => {
                lemma_off_object(o1);
            },
        }
    }
}

/// Below an empty object nothing is found but the object itself.
pub proof fn lemma_off_object(path: Seq<Seq<char>>)
    requires
        path.len() > 0,
    ensures
        JsonModel::empty_object().at(path) is None,
{
}

/// Below a node that is not an object nothing is found but the node itself.
pub proof fn lemma_off_leaf(node: JsonModel, path: Seq<Seq<char>>)
    requires
        !(node is Object),
        path.len() > 0,
    ensures
        node.at(path) is None,
{
}

} // verus!
