//! The models that the local runtimes offer, read from what the runtimes
//! report.

use crate::order::texts;
use crate::text::{chars_of, find_break, first_break, trim, trim_bounds};
use vstd::prelude::*;
use vstd::string::StrSliceExecFns;

verus! {

/// Where Ollama lists its models.
pub const OLLAMA_TAGS_URL: &'static str = "http://127.0.0.1:11434/api/tags";

/// The name that a piece of a listing holds: the piece trimmed, unless
/// nothing is left of it.
pub open spec fn piece_names(piece: Seq<char>) -> Seq<Seq<char>> {
    if trim(piece).len() > 0 {
        seq![trim(piece)]
    } else {
        Seq::empty()
    }
}

/// The model names in the output of `lms ls`: the output is cut at every
/// line feed and every tab, each piece is trimmed, and the pieces of which
/// something is left are the names, in their order.
pub open spec fn listed_models(stdout: Seq<char>) -> Seq<Seq<char>>
    decreases stdout.len(),
{
    let end = first_break(stdout, true);
    if 0 <= end < stdout.len() {
        piece_names(stdout.take(end)) + listed_models(stdout.skip(end + 1))
    } else {
        piece_names(stdout)
    }
}

/// The model names in the output of `lms ls`.
pub fn parse_lm_studio_ls_output(stdout: &str) -> (r: Vec<String>)
    ensures
        texts(r@) == listed_models(stdout@),
{
    let v = chars_of(stdout);
    let mut out: Vec<String> = Vec::new();
    let mut start: usize = 0;
    let mut done = false;
    assert(v@.skip(0) =~= v@);
    assert(texts(out@) + listed_models(v@) =~= listed_models(v@));
    while !done
        invariant
            v@ == stdout@,
            start <= v.len(),
            !done ==> texts(out@) + listed_models(v@.skip(start as int)) == listed_models(v@),
            done ==> texts(out@) == listed_models(v@),
        decreases v.len() - start + (if done { 0int } else { 1int }),
    {
        let ghost rest = v@.skip(start as int);
        let ghost before = texts(out@);
        let end = find_break(&v, start, v.len(), true);
        assert(v@.subrange(start as int, v.len() as int) =~= rest);
        let (a, b) = trim_bounds(&v, start, end);
        assert(v@.subrange(start as int, end as int) =~= rest.take(end - start));
        if a < b {
            out.push(stdout.substring_char(a, b).to_owned());
            assert(texts(out@) =~= before + piece_names(rest.take(end - start)));
        } else {
            assert(texts(out@) =~= before + piece_names(rest.take(end - start)));
        }
        if end >= v.len() {
            assert(rest.take(end - start) =~= rest);
            done = true;
        } else {
            assert(rest.skip(end - start + 1) =~= v@.skip(end + 1));
            assert(before + (piece_names(rest.take(end - start)) + listed_models(
                rest.skip(end - start + 1),
            )) =~= (before + piece_names(rest.take(end - start))) + listed_models(
                v@.skip(end + 1),
            ));
            start = end + 1;
        }
    }
    out
}

/// The names among what Ollama lists: an entry may lack a name, and an empty
/// name is none.
pub open spec fn named(models: Seq<Option<String>>) -> Seq<Seq<char>>
    decreases models.len(),
{
    if models.len() == 0 {
        Seq::empty()
    } else {
        match models.last() {
            Some(name) => if name@.len() > 0 {
                named(models.drop_last()).push(name@)
            } else {
                named(models.drop_last())
            },
            None => named(models.drop_last()),
        }
    }
}

/// The model names in what Ollama lists, given the `name` of each entry of
/// its `models` array, or `None` where the reply has no such array.
pub fn ollama_model_names(models: Option<Vec<Option<String>>>) -> (r: Vec<String>)
    ensures
        texts(r@) == match models {
            Some(list) => named(list@),
            None => Seq::empty(),
        },
{
    let mut out: Vec<String> = Vec::new();
    match models {
        Some(list) => {
            let mut i: usize = 0;
            assert(list@.take(0) =~= Seq::<Option<String>>::empty());
            assert(texts(out@) =~= named(list@.take(0)));
            while i < list.len()
                invariant
                    i <= list.len(),
                    texts(out@) == named(list@.take(i as int)),
                decreases list.len() - i,
            {
                let ghost before = texts(out@);
                proof {
                    assert(list@.take(i + 1).drop_last() =~= list@.take(i as int));
                    assert(list@.take(i + 1).last() == list@[i as int]);
                }
                match &list[i] {
                    Some(name) => {
                        if !name.as_str().is_empty() {
                            out.push(name.clone());
                            assert(texts(out@) =~= before.push(name@));
                        }
                    },
                    None => {},
                }
                i += 1;
            }
            assert(list@.take(list.len() as int) =~= list@);
        },
        None => {
            assert(texts(out@) =~= Seq::<Seq<char>>::empty());
        },
    }
    out
}

} // verus!
