//! Text handling for the output of command-line tools: white space, trimming,
//! lines and fields.

use crate::order::lemma_code_point;
use vstd::prelude::*;

verus! {

/// The text of an optional string.
pub open spec fn opt_text(s: Option<String>) -> Option<Seq<char>> {
    match s {
        Some(t) => Some(t@),
        None => None,
    }
}

/// Whether a character is white space: a character with the Unicode property
/// `White_Space`.
pub open spec fn is_space(c: char) -> bool {
    let n = c as int;
    ||| 0x09 <= n <= 0x0D
    ||| n == 0x20
    ||| n == 0x85
    ||| n == 0xA0
    ||| n == 0x1680
    ||| 0x2000 <= n <= 0x200A
    ||| n == 0x2028
    ||| n == 0x2029
    ||| n == 0x202F
    ||| n == 0x205F
    ||| n == 0x3000
}

/// `s` without the white space at its beginning.
pub open spec fn trim_start(s: Seq<char>) -> Seq<char>
    decreases s.len(),
{
    if s.len() > 0 && is_space(s[0]) {
        trim_start(s.drop_first())
    } else {
        s
    }
}

/// `s` without the white space at its end.
pub open spec fn trim_end(s: Seq<char>) -> Seq<char>
    decreases s.len(),
{
    if s.len() > 0 && is_space(s.last()) {
        trim_end(s.drop_last())
    } else {
        s
    }
}

/// `s` without the white space at its beginning and at its end.
pub open spec fn trim(s: Seq<char>) -> Seq<char> {
    trim_end(trim_start(s))
}

/// Whether a character ends a piece of text: a line feed, and a tab too
/// where `tabs` is set.
pub open spec fn is_break(c: char, tabs: bool) -> bool {
    c == '\n' || (tabs && c == '\t')
}

/// The position of the first break in `s`, or its length where it has none.
pub open spec fn first_break(s: Seq<char>, tabs: bool) -> int
    decreases s.len(),
{
    if s.len() == 0 || is_break(s[0], tabs) {
        0
    } else {
        1 + first_break(s.drop_first(), tabs)
    }
}

/// The first break is where a break stands that no break precedes.
pub proof fn lemma_first_break(s: Seq<char>, tabs: bool, k: int)
    requires
        0 <= k <= s.len(),
        forall|j: int| 0 <= j < k ==> !is_break(#[trigger] s[j], tabs),
        k == s.len() || is_break(s[k], tabs),
    ensures
        first_break(s, tabs) == k,
    decreases s.len(),
{
    if k > 0 {
        assert(!is_break(s[0], tabs));
        let rest = s.drop_first();
        assert forall|j: int| 0 <= j < k - 1 implies !is_break(#[trigger] rest[j], tabs) by {
            assert(!is_break(s[j + 1], tabs));
        }
        lemma_first_break(rest, tabs, k - 1);
    }
}

/// Whether `c` is white space.
pub fn is_space_char(c: char) -> (r: bool)
    ensures
        r == is_space(c),
{
    proof {
        lemma_code_point(c);
    }
    let n: u32 = c as u32;
    (0x09 <= n && n <= 0x0D) || n == 0x20 || n == 0x85 || n == 0xA0 || n == 0x1680 || (0x2000 <= n
        && n <= 0x200A) || n == 0x2028 || n == 0x2029 || n == 0x202F || n == 0x205F || n == 0x3000
}

/// The characters of `s`.
pub fn chars_of(s: &str) -> (v: Vec<char>)
    ensures
        v@ == s@,
{
    let mut v: Vec<char> = Vec::new();
    for c in it: s.chars()
        invariant
            v@ == it.seq().take(it.index() as int),
            it.seq() == s@,
    {
        v.push(c);
    }
    v
}

/// The bounds of `v[from..to]` without the white space at its two ends.
pub fn trim_bounds(v: &Vec<char>, from: usize, to: usize) -> (r: (usize, usize))
    requires
        from <= to <= v.len(),
    ensures
        from <= r.0 <= r.1 <= to,
        v@.subrange(r.0 as int, r.1 as int) == trim(v@.subrange(from as int, to as int)),
{
    let mut a: usize = from;
    while a < to && is_space_char(v[a])
        invariant
            from <= a <= to <= v.len(),
            trim_start(v@.subrange(from as int, to as int)) == trim_start(
                v@.subrange(a as int, to as int),
            ),
        decreases to - a,
    {
        assert(v@.subrange(a as int, to as int).drop_first() =~= v@.subrange(a + 1, to as int));
        a += 1;
    }
    let mut b: usize = to;
    while a < b && is_space_char(v[b - 1])
        invariant
            a <= b <= to <= v.len(),
            trim_end(v@.subrange(a as int, to as int)) == trim_end(
                v@.subrange(a as int, b as int),
            ),
        decreases b - a,
    {
        assert(v@.subrange(a as int, b as int).drop_last() =~= v@.subrange(a as int, b - 1));
        b -= 1;
    }
    (a, b)
}

/// The position of the first break in `v[from..to]`, or `to`.
pub fn find_break(v: &Vec<char>, from: usize, to: usize, tabs: bool) -> (r: usize)
    requires
        from <= to <= v.len(),
    ensures
        from <= r <= to,
        r - from == first_break(v@.subrange(from as int, to as int), tabs),
{
    let mut i: usize = from;
    while i < to && !(v[i] == '\n' || (tabs && v[i] == '\t'))
        invariant
            from <= i <= to <= v.len(),
            forall|j: int| from <= j < i ==> !is_break(#[trigger] v@[j], tabs),
        decreases to - i,
    {
        i += 1;
    }
    proof {
        let s = v@.subrange(from as int, to as int);
        assert forall|j: int| 0 <= j < i - from implies !is_break(#[trigger] s[j], tabs) by {
            assert(!is_break(v@[from + j], tabs));
        }
        lemma_first_break(s, tabs, i - from);
    }
    i
}

} // verus!
