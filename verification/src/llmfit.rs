//! Calling the `llmfit` tool: how its command line is made up.

use crate::order::texts;
use crate::system::{decimal, push_decimal};
use vstd::prelude::*;

verus! {

/// The number of recommendations that is asked for: the wish, but at least 1
/// and at most 20.
pub open spec fn limit_asked(limit: u8) -> u8 {
    if limit > 20 {
        20
    } else if limit < 1 {
        1
    } else {
        limit
    }
}

/// The number of recommendations that is asked for.
pub fn recommendation_limit(limit: u8) -> (r: u8)
    ensures
        r == limit_asked(limit),
{
    if limit > 20 {
        20
    } else if limit < 1 {
        1
    } else {
        limit
    }
}

/// The arguments that ask `llmfit` for its view of the system.
pub fn system_args() -> (r: Vec<String>)
    ensures
        texts(r@) == seq!["--json"@, "system"@],
{
    let mut out: Vec<String> = Vec::new();
    out.push("--json".to_owned());
    out.push("system".to_owned());
    assert(texts(out@) =~= seq!["--json"@, "system"@]);
    out
}

/// The arguments that ask `llmfit` for recommendations.
pub fn recommend_args(limit: u8) -> (r: Vec<String>)
    ensures
        texts(r@) == seq![
            "recommend"@,
            "--json"@,
            "--limit"@,
            decimal(limit_asked(limit) as int),
        ],
{
    let mut count = String::new();
    push_decimal(&mut count, recommendation_limit(limit) as u128);
    assert(count@ =~= decimal(limit_asked(limit) as int));
    let mut out: Vec<String> = Vec::new();
    out.push("recommend".to_owned());
    out.push("--json".to_owned());
    out.push("--limit".to_owned());
    out.push(count);
    assert(texts(out@) =~= seq![
        "recommend"@,
        "--json"@,
        "--limit"@,
        decimal(limit_asked(limit) as int),
    ]);
    out
}

} // verus!
