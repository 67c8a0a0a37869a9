//! The lexicographic order on strings, and lists of names kept in that order.
//!
//! Strings are compared code point by code point, a proper prefix coming
//! before the longer string. Name lists that the library hands out are in
//! this order, which makes them reproducible.

use vstd::prelude::*;
use vstd::std_specs::iter::IteratorSpec;

verus! {

/// Whether `a` comes strictly before `b`.
pub open spec fn lex_lt(a: Seq<char>, b: Seq<char>) -> bool
    decreases a.len(),
{
    if b.len() == 0 {
        false
    } else if a.len() == 0 {
        true
    } else if a[0] != b[0] {
        (a[0] as int) < (b[0] as int)
    } else {
        lex_lt(a.drop_first(), b.drop_first())
    }
}

/// Whether `a` comes before `b` or is `b`.
pub open spec fn lex_le(a: Seq<char>, b: Seq<char>) -> bool {
    a == b || lex_lt(a, b)
}

/// The texts of a list of strings.
pub open spec fn texts(v: Seq<String>) -> Seq<Seq<char>> {
    Seq::new(v.len(), |i: int| v[i]@)
}

/// Whether a list of names is in order, equal neighbours allowed.
pub open spec fn sorted(s: Seq<Seq<char>>) -> bool {
    forall|i: int, j: int| 0 <= i < j < s.len() ==> lex_le(#[trigger] s[i], #[trigger] s[j])
}

/// Whether a list of names is in order and names nothing twice.
pub open spec fn strictly_sorted(s: Seq<Seq<char>>) -> bool {
    forall|i: int, j: int| 0 <= i < j < s.len() ==> lex_lt(#[trigger] s[i], #[trigger] s[j])
}

/// Whether `names` lists exactly the members of `of`, in order and each once.
pub open spec fn lists(names: Seq<Seq<char>>, of: Set<Seq<char>>) -> bool {
    strictly_sorted(names) && names.to_set() == of
}

/// A character read as `u32` is its code point.
pub proof fn lemma_code_point(c: char)
    ensures
        c as u32 as int == c as int,
{
}

/// No string comes before itself.
pub proof fn lemma_lex_irreflexive(a: Seq<char>)
    ensures
        !lex_lt(a, a),
    decreases a.len(),
{
    if a.len() > 0 {
        lemma_lex_irreflexive(a.drop_first());
    }
}

/// The order is transitive.
pub proof fn lemma_lex_transitive(a: Seq<char>, b: Seq<char>, c: Seq<char>)
    requires
        lex_lt(a, b),
        lex_lt(b, c),
    ensures
        lex_lt(a, c),
    decreases a.len(),
{
    if a.len() > 0 && a[0] == b[0] && b[0] == c[0] {
        lemma_lex_transitive(a.drop_first(), b.drop_first(), c.drop_first());
    }
}

/// Of two different strings one comes before the other.
pub proof fn lemma_lex_total(a: Seq<char>, b: Seq<char>)
    ensures
        lex_lt(a, b) || a == b || lex_lt(b, a),
    decreases a.len(),
{
    if a.len() == 0 || b.len() == 0 {
        if a.len() == 0 && b.len() == 0 {
            assert(a =~= b);
        }
    } else if a[0] == b[0] {
        lemma_lex_total(a.drop_first(), b.drop_first());
        if a.drop_first() == b.drop_first() {
            assert(a =~= seq![a[0]] + a.drop_first());
            assert(b =~= seq![b[0]] + b.drop_first());
        }
    } else {
        assert(a[0] as int != b[0] as int);
    }
}

/// `a` before-or-equal `b` and `b` strictly before `c` put `a` strictly
/// before `c`; likewise with the strict step first.
pub proof fn lemma_lex_chain(a: Seq<char>, b: Seq<char>, c: Seq<char>)
    requires
        (lex_le(a, b) && lex_lt(b, c)) || (lex_lt(a, b) && lex_le(b, c)),
    ensures
        lex_lt(a, c),
{
    if a != b && b != c {
        lemma_lex_transitive(a, b, c);
    }
}

/// Two lists that name the same set, each in order and without repeats, are
/// the same list: `lists` pins a list down.
pub proof fn lemma_lists_unique(x: Seq<Seq<char>>, y: Seq<Seq<char>>)
    requires
        strictly_sorted(x),
        strictly_sorted(y),
        x.to_set() == y.to_set(),
    ensures
        x == y,
    decreases x.len(),
{
    if x.len() == 0 {
        if y.len() > 0 {
            assert(y.to_set().contains(y[0]));
            assert(x.to_set().contains(y[0]));
        }
        assert(x =~= y);
    } else {
        assert(x.to_set().contains(x[0]));
        assert(y.to_set().contains(x[0]));
        let k = choose|k: int| 0 <= k < y.len() && y[k] == x[0];
        assert(y.to_set().contains(y[0]));
        assert(x.to_set().contains(y[0]));
        let m = choose|m: int| 0 <= m < x.len() && x[m] == y[0];
        if x[0] != y[0] {
            assert(lex_lt(x[0], x[m]));
            assert(lex_lt(y[0], y[k]));
            lemma_lex_transitive(x[0], y[0], x[0]);
            lemma_lex_irreflexive(x[0]);
        }
        let xt = x.drop_first();
        let yt = y.drop_first();
        assert forall|e: Seq<char>| xt.to_set().contains(e) <==> yt.to_set().contains(e) by {
            if xt.to_set().contains(e) {
                let i = choose|i: int| 0 <= i < xt.len() && xt[i] == e;
                assert(x[i + 1] == e);
                assert(lex_lt(x[0], x[i + 1]));
                lemma_lex_irreflexive(e);
                assert(x.to_set().contains(e));
                assert(y.to_set().contains(e));
                let j = choose|j: int| 0 <= j < y.len() && y[j] == e;
                assert(j != 0);
                assert(yt[j - 1] == e);
            }
            if yt.to_set().contains(e) {
                let i = choose|i: int| 0 <= i < yt.len() && yt[i] == e;
                assert(y[i + 1] == e);
                assert(lex_lt(y[0], y[i + 1]));
                lemma_lex_irreflexive(e);
                assert(y.to_set().contains(e));
                assert(x.to_set().contains(e));
                let j = choose|j: int| 0 <= j < x.len() && x[j] == e;
                assert(j != 0);
                assert(xt[j - 1] == e);
            }
        }
        assert(xt.to_set() =~= yt.to_set());
        assert forall|i: int, j: int| 0 <= i < j < xt.len() implies lex_lt(
            #[trigger] xt[i],
            #[trigger] xt[j],
        ) by {
            assert(lex_lt(x[i + 1], x[j + 1]));
        }
        assert forall|i: int, j: int| 0 <= i < j < yt.len() implies lex_lt(
            #[trigger] yt[i],
            #[trigger] yt[j],
        ) by {
            assert(lex_lt(y[i + 1], y[j + 1]));
        }
        lemma_lists_unique(xt, yt);
        assert(x =~= seq![x[0]] + xt);
        assert(y =~= seq![y[0]] + yt);
    }
}

/// Two lists that hold the same names as often, each in order, are the same
/// list: being in order and a rearrangement pins a list down.
pub proof fn lemma_sorted_unique(x: Seq<Seq<char>>, y: Seq<Seq<char>>)
    requires
        sorted(x),
        sorted(y),
        x.to_multiset() == y.to_multiset(),
    ensures
        x == y,
{
    let le = |a: Seq<char>, b: Seq<char>| lex_le(a, b);
    assert forall|a: Seq<char>, b: Seq<char>| #[trigger] le(a, b) && le(b, a) implies a == b by {
        if a != b {
            lemma_lex_transitive(a, b, a);
            lemma_lex_irreflexive(a);
        }
    }
    assert forall|a: Seq<char>, b: Seq<char>, c: Seq<char>|
        #[trigger] le(a, b) && #[trigger] le(b, c) implies le(a, c) by {
        if a != b && b != c {
            lemma_lex_transitive(a, b, c);
        }
    }
    assert forall|a: Seq<char>, b: Seq<char>| #[trigger] le(a, b) || #[trigger] le(b, a) by {
        lemma_lex_total(a, b);
    }
    assert(vstd::relations::total_ordering(le));
    assert(vstd::relations::sorted_by(x, le));
    assert(vstd::relations::sorted_by(y, le));
    vstd::seq_lib::lemma_sorted_unique(x, y, le);
}

/// Whether `a` comes strictly before `b`.
pub fn str_lt(a: &str, b: &str) -> (r: bool)
    ensures
        r == lex_lt(a@, b@),
{
    let mut ia = a.chars();
    let mut ib = b.chars();
    let ghost mut k: int = 0;
    loop
        invariant
            0 <= k <= a@.len(),
            ia.remaining().len() == a@.len() - k,
            lex_lt(a@, b@) == lex_lt(ia.remaining(), ib.remaining()),
        decreases a@.len() - k,
    {
        let ca = ia.next();
        let cb = ib.next();
        match (ca, cb) {
            (_, None) => {
                return false;
            },
            (None, Some(_)) => {
                return true;
            },
            (Some(x), Some(y)) => {
                if x != y {
                    proof {
                        lemma_code_point(x);
                        lemma_code_point(y);
                    }
                    return (x as u32) < (y as u32);
                }
                proof {
                    k = k + 1;
                }
            },
        }
    }
}

/// The first position of an ordered list that does not come before `name`.
pub fn lower_bound(names: &Vec<String>, name: &str) -> (r: usize)
    requires
        sorted(texts(names@)),
    ensures
        r <= names.len(),
        forall|j: int| 0 <= j < r ==> lex_lt(#[trigger] texts(names@)[j], name@),
        forall|j: int| r <= j < names.len() ==> lex_le(name@, #[trigger] texts(names@)[j]),
{
    let mut i: usize = 0;
    while i < names.len()
        invariant
            i <= names.len(),
            sorted(texts(names@)),
            forall|j: int| 0 <= j < i ==> lex_lt(#[trigger] texts(names@)[j], name@),
        decreases names.len() - i,
    {
        if !str_lt(names[i].as_str(), name) {
            proof {
                let at = texts(names@)[i as int];
                lemma_lex_total(at, name@);
                assert forall|j: int| i <= j < names.len() implies lex_le(
                    name@,
                    #[trigger] texts(names@)[j],
                ) by {
                    let other = texts(names@)[j];
                    if j > i {
                        assert(lex_le(at, other));
                        if name@ != at && at != other {
                            lemma_lex_transitive(name@, at, other);
                        }
                    }
                }
            }
            return i;
        }
        i += 1;
    }
    i
}

/// Puts `name` into an ordered list at its place, beside any equal names.
pub fn insert_sorted(names: &mut Vec<String>, name: String)
    requires
        sorted(texts(old(names)@)),
    ensures
        sorted(texts(final(names)@)),
        texts(final(names)@).to_multiset() == texts(old(names)@).to_multiset().insert(name@),
{
    let at = lower_bound(names, name.as_str());
    let ghost before = texts(names@);
    names.insert(at, name);
    proof {
        let after = texts(names@);
        assert(after =~= before.insert(at as int, name@));
        vstd::seq_lib::to_multiset_insert(before, at as int, name@);
        assert forall|i: int, j: int| 0 <= i < j < after.len() implies lex_le(
            #[trigger] after[i],
            #[trigger] after[j],
        ) by {
            if j < at {
                assert(lex_le(before[i], before[j]));
            } else if j == at {
                assert(lex_lt(before[i], name@));
            } else if i < at {
                assert(lex_lt(before[i], name@));
                assert(lex_le(name@, before[j - 1]));
                lemma_lex_chain(before[i], name@, before[j - 1]);
            } else if i == at {
                assert(lex_le(name@, before[j - 1]));
            } else {
                assert(lex_le(before[i - 1], before[j - 1]));
            }
        }
    }
}

/// Puts `name` into an ordered list without repeats, unless it is there.
pub fn insert_unique(names: &mut Vec<String>, name: String)
    requires
        strictly_sorted(texts(old(names)@)),
    ensures
        strictly_sorted(texts(final(names)@)),
        texts(final(names)@).to_set() == texts(old(names)@).to_set().insert(name@),
{
    let ghost before = texts(names@);
    assert(sorted(before)) by {
        assert forall|i: int, j: int| 0 <= i < j < before.len() implies lex_le(
            #[trigger] before[i],
            #[trigger] before[j],
        ) by {
            assert(lex_lt(before[i], before[j]));
        }
    }
    let at = lower_bound(names, name.as_str());
    if at < names.len() && !str_lt(name.as_str(), names[at].as_str()) {
        proof {
            assert(lex_le(name@, before[at as int]));
            assert(before[at as int] == name@);
            assert(before.to_set().contains(name@));
            assert(before.to_set().insert(name@) =~= before.to_set());
        }
        return ;
    }
    names.insert(at, name);
    proof {
        let after = texts(names@);
        assert(after =~= before.insert(at as int, name@));
        assert forall|i: int, j: int| 0 <= i < j < after.len() implies lex_lt(
            #[trigger] after[i],
            #[trigger] after[j],
        ) by {
            if j < at {
                assert(lex_lt(before[i], before[j]));
            } else if j == at {
                assert(lex_lt(before[i], name@));
            } else if i < at {
                assert(lex_lt(before[i], name@));
                assert(lex_le(name@, before[j - 1]));
                lemma_lex_chain(before[i], name@, before[j - 1]);
            } else if i == at {
                assert(lex_le(name@, before[j - 1]));
                if j - 1 == at {
                    assert(lex_lt(name@, before[at as int]));
                } else {
                    assert(lex_lt(before[at as int], before[j - 1]));
                    assert(lex_le(name@, before[at as int]));
                    lemma_lex_chain(name@, before[at as int], before[j - 1]);
                }
            } else {
                assert(lex_lt(before[i - 1], before[j - 1]));
            }
        }
        assert forall|e: Seq<char>| after.to_set().contains(e) <==> before.to_set().insert(
            name@,
        ).contains(e) by {
            if after.to_set().contains(e) {
                let i = choose|i: int| 0 <= i < after.len() && after[i] == e;
                if i < at {
                    assert(before[i] == e);
                } else if i > at {
                    assert(before[i - 1] == e);
                }
            }
            if before.to_set().contains(e) {
                let i = choose|i: int| 0 <= i < before.len() && before[i] == e;
                if i < at {
                    assert(after[i] == e);
                } else {
                    assert(after[i + 1] == e);
                }
            }
            if e == name@ {
                assert(after[at as int] == e);
            }
        }
        assert(after.to_set() =~= before.to_set().insert(name@));
    }
}

/// Whether `name` occurs in `names`.
pub fn contains_name(names: &Vec<String>, name: &String) -> (r: bool)
    ensures
        r == texts(names@).contains(name@),
{
    let mut i: usize = 0;
    while i < names.len()
        invariant
            i <= names.len(),
            forall|j: int| 0 <= j < i ==> texts(names@)[j] != name@,
        decreases names.len() - i,
    {
        if names[i] == *name {
            assert(texts(names@)[i as int] == name@);
            return true;
        }
        i += 1;
    }
    false
}

/// The names of `names` that `other` lacks, in the order in which `names`
/// has them.
pub fn names_without(names: &Vec<String>, other: &Vec<String>) -> (r: Vec<String>)
    ensures
        texts(r@) == texts(names@).filter(|n: Seq<char>| !texts(other@).contains(n)),
{
    let ghost keep = |n: Seq<char>| !texts(other@).contains(n);
    let mut out: Vec<String> = Vec::new();
    let mut i: usize = 0;
    assert(texts(names@).take(0) =~= Seq::<Seq<char>>::empty());
    while i < names.len()
        invariant
            i <= names.len(),
            keep == |n: Seq<char>| !texts(other@).contains(n),
            texts(out@) == texts(names@).take(i as int).filter(keep),
        decreases names.len() - i,
    {
        let ghost done = texts(names@).take(i as int);
        let ghost prior = texts(out@);
        proof {
            assert(texts(names@).take(i + 1) =~= done.push(texts(names@)[i as int]));
            done.lemma_filter_push(texts(names@)[i as int], keep);
        }
        if !contains_name(other, &names[i]) {
            out.push(names[i].clone());
            assert(texts(out@) =~= prior.push(names@[i as int]@));
        }
        i += 1;
    }
    assert(texts(names@).take(names.len() as int) =~= texts(names@));
    out
}

} // verus!
