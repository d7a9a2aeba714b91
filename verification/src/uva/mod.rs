//! UVa Online Judge: everything that speaks to onlinejudge.org and uHunt.
//!
//! Split from the rest so that the two things this Runner does — hold a job for
//! the Server, and be a guest on somebody else's site — do not read as one.

pub mod language;
pub mod problem;
pub mod site;
pub mod uhunt;
pub mod verdict;

use vstd::prelude::*;

use crate::text::{push_signed, signed_decimal};
use uhunt::Row;

verus! {

/// The problem type this judge serves.
///
/// **A wire value shared with the Server, the Client and the documentation
/// site.** The Client resolves a result renderer from it and the Server stores
/// it without reading it, so it is not this repository's to rename.
pub const PROBLEM_TYPE: &'static str = "uva@1";

/// What a result document names as the judge.
pub const JUDGE: &'static str = "onlinejudge.org";

/// A row as the trail records it: verbatim, in the order uHunt sends it.
pub open spec fn row_text(row: Row) -> Seq<char> {
    "row: ["@ + signed_decimal(row.sid as int) + ","@ + signed_decimal(row.pid as int) + ","@
        + signed_decimal(row.verdict_id as int) + ","@ + signed_decimal(row.runtime_ms as int) + ","@
        + signed_decimal(row.submitted_at as int) + ","@ + signed_decimal(row.language_id as int)
        + "]"@
}

/// A row as the trail records it.
///
/// **The rows themselves are the only answer to a dispute** about what
/// somebody else's judge said, so the trail keeps them as they came.
pub fn evidence(row: &Row) -> (text: String)
    ensures
        text@ == row_text(*row),
{
    let mut text = String::from_str("row: [");
    push_signed(&mut text, row.sid);
    text.append(",");
    push_signed(&mut text, row.pid);
    text.append(",");
    push_signed(&mut text, row.verdict_id);
    text.append(",");
    push_signed(&mut text, row.runtime_ms);
    text.append(",");
    push_signed(&mut text, row.submitted_at);
    text.append(",");
    push_signed(&mut text, row.language_id);
    text.append("]");
    text
}

} // verus!
