//! The two artefacts a finished submission leaves behind.
//!
//! **`details` is where the run time lives** — the same place `standard-io` puts
//! its per-test table, read by the result renderer through the ordinary
//! attachment mechanism.
//!
//! **`log` is the evidence.** When the verdict comes from somebody else's judge,
//! the dispute *"UVa says my submission was AC and AlgoJudge shows WA"* is one a
//! manager will eventually have to answer, and the only way to answer it is to
//! have recorded what the archive actually returned, when, and for which
//! submission id. The log is the entry's trail, joined by line breaks.

use vstd::prelude::*;

use crate::json::{lemma_object_view, lookup, member_of, Json, JsonView};
use crate::pending::Entry;
use crate::uva::uhunt::Row;
use crate::uva::verdict::COMPILATION_ERROR;
use crate::uva::{JUDGE, PROBLEM_TYPE};

verus! {

/// The result document for a judged submission.
///
/// **`type` is one string** — `uva@1`. **Timestamps are seconds since the
/// epoch, and say so in their names.** `submittedAtUnix` is the archive's own,
/// from the submission row; `judgedAtUnix` is when this Runner read it.
pub open spec fn details_view(
    problem_number: int,
    row: Row,
    verdict: Seq<char>,
    abbreviation: Seq<char>,
    solved: bool,
    judged_at: int,
) -> JsonView {
    JsonView::Object(
        seq![
            ("type"@, JsonView::Str(PROBLEM_TYPE@)),
            ("score"@, JsonView::Int(if solved { 1 } else { 0 })),
            ("maxScore"@, JsonView::Int(1)),
            (
                "external"@,
                JsonView::Object(
                    seq![
                        ("judge"@, JsonView::Str(JUDGE@)),
                        ("problemNumber"@, JsonView::Int(problem_number)),
                        ("submissionId"@, JsonView::Int(row.sid as int)),
                        ("verdictId"@, JsonView::Int(row.verdict_id as int)),
                        ("verdict"@, JsonView::Str(verdict)),
                        ("verdictAbbr"@, JsonView::Str(abbreviation)),
                        ("languageId"@, JsonView::Int(row.language_id as int)),
                        ("runtimeMs"@, JsonView::Int(row.runtime_ms as int)),
                        ("submittedAtUnix"@, JsonView::Int(row.submitted_at as int)),
                        ("judgedAtUnix"@, JsonView::Int(judged_at)),
                    ],
                ),
            ),
            (
                "compilation"@,
                JsonView::Object(
                    seq![
                        (
                            "status"@,
                            JsonView::Str(
                                if row.verdict_id == COMPILATION_ERROR {
                                    "ERROR"@
                                } else {
                                    "OK"@
                                },
                            ),
                        ),
                    ],
                ),
            ),
        ],
    )
}

/// The result document for a submission that was never judged.
pub open spec fn failure_view(problem_number: int, sid: int, why: Seq<char>) -> JsonView {
    JsonView::Object(
        seq![
            ("type"@, JsonView::Str(PROBLEM_TYPE@)),
            (
                "external"@,
                JsonView::Object(
                    seq![
                        ("judge"@, JsonView::Str(JUDGE@)),
                        ("problemNumber"@, JsonView::Int(problem_number)),
                        ("submissionId"@, JsonView::Int(sid)),
                    ],
                ),
            ),
            ("failure"@, JsonView::Str(why)),
        ],
    )
}

fn text(s: &str) -> (j: Json)
    ensures
        j@ == JsonView::Str(s@),
{
    Json::Str(s.to_owned())
}

fn member(name: &str, value: Json) -> (m: (String, Json))
    ensures
        m.0@ == name@,
        m.1 == value,
{
    (name.to_owned(), value)
}

fn object(members: Vec<(String, Json)>) -> (j: Json)
    ensures
        j == Json::Object(members),
        j@ is Object,
        j@->Object_0.len() == members@.len(),
        forall|i: int|
            0 <= i < members@.len() ==> #[trigger] j@->Object_0[i] == (
                members@[i].0@,
                members@[i].1@,
            ),
{
    let j = Json::Object(members);
    proof {
        lemma_object_view(j);
    }
    j
}

/// The result document for a judged submission, read at `judged_at`.
pub fn details_at(
    entry: &Entry,
    row: &Row,
    verdict: &str,
    abbreviation: &str,
    solved: bool,
    judged_at: i64,
) -> (doc: Json)
    ensures
        doc@ == details_view(
            entry.problem_number as int,
            *row,
            verdict@,
            abbreviation@,
            solved,
            judged_at as int,
        ),
{
    let external = object(
        vec![
            member("judge", text(JUDGE)),
            member("problemNumber", Json::Int(entry.problem_number)),
            member("submissionId", Json::Int(row.sid)),
            member("verdictId", Json::Int(row.verdict_id)),
            member("verdict", text(verdict)),
            member("verdictAbbr", text(abbreviation)),
            member("languageId", Json::Int(row.language_id)),
            member("runtimeMs", Json::Int(row.runtime_ms)),
            member("submittedAtUnix", Json::Int(row.submitted_at)),
            member("judgedAtUnix", Json::Int(judged_at)),
        ],
    );
    // **No compiler log, and that is measured rather than assumed**: the site
    // provides compiler output by email and excludes warnings, so the status is
    // all that can honestly be said.
    let status = if row.verdict_id == COMPILATION_ERROR {
        text("ERROR")
    } else {
        text("OK")
    };
    let compilation = object(vec![member("status", status)]);
    let score: i64 = if solved {
        1
    } else {
        0
    };
    let doc = object(
        vec![
            member("type", text(PROBLEM_TYPE)),
            member("score", Json::Int(score)),
            member("maxScore", Json::Int(1)),
            member("external", external),
            member("compilation", compilation),
        ],
    );
    let ghost expected = details_view(
        entry.problem_number as int,
        *row,
        verdict@,
        abbreviation@,
        solved,
        judged_at as int,
    );
    assert(external@->Object_0 =~= expected->Object_0[3].1->Object_0);
    assert(compilation@->Object_0 =~= expected->Object_0[4].1->Object_0);
    assert(doc@->Object_0 =~= expected->Object_0);
    doc
}

/// The result document for a judged submission, read now.
pub fn details(entry: &Entry, row: &Row, verdict: &str, abbreviation: &str, solved: bool) -> (doc:
    Json)
    ensures
        exists|judged_at: i64|
            doc@ == details_view(
                entry.problem_number as int,
                *row,
                verdict@,
                abbreviation@,
                solved,
                judged_at as int,
            ),
{
    details_at(entry, row, verdict, abbreviation, solved, now())
}

/// The document for a submission that was never judged.
///
/// Written for the same reason as the one above: an infrastructure failure is
/// the case somebody will ask about, and "it did not work" is not an answer.
pub fn details_of_failure(entry: &Entry, sid: i64, why: &str) -> (doc: Json)
    ensures
        doc@ == failure_view(entry.problem_number as int, sid as int, why@),
{
    let external = object(
        vec![
            member("judge", text(JUDGE)),
            member("problemNumber", Json::Int(entry.problem_number)),
            member("submissionId", Json::Int(sid)),
        ],
    );
    let doc = object(
        vec![member("type", text(PROBLEM_TYPE)), member("external", external), member("failure", text(why))],
    );
    let ghost expected = failure_view(entry.problem_number as int, sid as int, why@);
    assert(external@->Object_0 =~= expected->Object_0[1].1->Object_0);
    assert(doc@->Object_0 =~= expected->Object_0);
    doc
}

/// Whole seconds since the epoch, when the clock is set after it.
///
/// Trusted: `SystemTime::elapsed` on `UNIX_EPOCH`, which reads the system
/// clock. What it answers depends on the moment it is asked, so nothing is
/// promised about it.
#[verifier::external_body]
fn seconds_since_epoch() -> (secs: Option<u64>) {
    std::time::UNIX_EPOCH.elapsed().ok().map(|d| d.as_secs())
}

/// A reading of the clock as the documents carry it: its seconds, or zero on
/// a clock set before 1970.
pub fn seconds_or_zero(reading: Option<u64>) -> (secs: i64)
    ensures
        secs == match reading {
            Some(s) => #[verifier::truncate] (s as i64),
            None => 0,
        },
{
    match reading {
        Some(s) => #[verifier::truncate] (s as i64),
        None => 0,
    }
}

/// Seconds since the epoch, or zero on a clock set before 1970.
///
/// What the clock reads is the moment's, so nothing is said of the number:
/// `seconds_or_zero` says what is made of it.
pub fn now() -> (secs: i64) {
    seconds_or_zero(seconds_since_epoch())
}

/// **A verdict that does not count keeps its name and loses its point**: the
/// score is one exactly when the verdict counts, out of one, whatever the
/// verdict was called.
pub proof fn lemma_the_score_is_binary(
    problem_number: int,
    row: Row,
    verdict: Seq<char>,
    abbreviation: Seq<char>,
    solved: bool,
    judged_at: int,
)
    ensures
        details_view(problem_number, row, verdict, abbreviation, solved, judged_at)->Object_0[1]
            == ("score"@, JsonView::Int(if solved { 1 } else { 0 })),
        details_view(problem_number, row, verdict, abbreviation, solved, judged_at)->Object_0[2]
            == ("maxScore"@, JsonView::Int(1)),
        details_view(problem_number, row, verdict, abbreviation, solved, judged_at)->Object_0[3].1->Object_0[4]
            == ("verdict"@, JsonView::Str(verdict)),
{
}

/// **A compile error is the only thing that marks compilation.**
pub proof fn lemma_only_a_compile_error_marks_compilation(
    problem_number: int,
    row: Row,
    verdict: Seq<char>,
    abbreviation: Seq<char>,
    solved: bool,
    judged_at: int,
)
    ensures
        details_view(problem_number, row, verdict, abbreviation, solved, judged_at)->Object_0[4].1
            == JsonView::Object(
            seq![
                (
                    "status"@,
                    JsonView::Str(
                        if row.verdict_id == 30 {
                            "ERROR"@
                        } else {
                            "OK"@
                        },
                    ),
                ),
            ],
        ),
{
}

/// **Nothing unjudged carries a score**, and it still says which submission
/// it was.
pub proof fn lemma_a_failure_carries_no_score(problem_number: int, sid: int, why: Seq<char>)
    ensures
        forall|i: int|
            0 <= i < failure_view(problem_number, sid, why)->Object_0.len() ==> (#[trigger] failure_view(
                problem_number,
                sid,
                why,
            )->Object_0[i]).0 != "score"@,
        failure_view(problem_number, sid, why)->Object_0[1].1->Object_0[2] == (
            "submissionId"@,
            JsonView::Int(sid),
        ),
{
    reveal_strlit("score");
    reveal_strlit("type");
    reveal_strlit("external");
    reveal_strlit("failure");
    assert forall|i: int|
        0 <= i < failure_view(problem_number, sid, why)->Object_0.len() implies (#[trigger] failure_view(
            problem_number,
            sid,
            why,
        )->Object_0[i]).0 != "score"@ by {
        let name = failure_view(problem_number, sid, why)->Object_0[i].0;
        assert(name.len() != 5 || name[0] != 's');
    }
}

/// **The renderer reads each value under its own name.** Read by member, as a
/// renderer reads it: the type is `uva@1`; the score is one exactly when the
/// verdict counts, out of one; under `external` the judge, the public number,
/// the submission's id, the verdict's id, its long and short names, the
/// language's id, the run time, when the archive took it and when this Runner
/// read it, each from where it came; and compilation failed exactly on a
/// compilation error.
pub proof fn lemma_each_value_is_under_its_own_name(
    problem_number: int,
    row: Row,
    verdict: Seq<char>,
    abbreviation: Seq<char>,
    solved: bool,
    judged_at: int,
)
    ensures
        ({
            let doc = details_view(problem_number, row, verdict, abbreviation, solved, judged_at);
            let external = member_of(doc, "external"@)->Some_0;
            &&& member_of(doc, "type"@) == Some(JsonView::Str("uva@1"@))
            &&& member_of(doc, "score"@) == Some(JsonView::Int(if solved { 1 } else { 0 }))
            &&& member_of(doc, "maxScore"@) == Some(JsonView::Int(1))
            &&& member_of(doc, "external"@) is Some
            &&& member_of(external, "judge"@) == Some(JsonView::Str("onlinejudge.org"@))
            &&& member_of(external, "problemNumber"@) == Some(JsonView::Int(problem_number))
            &&& member_of(external, "submissionId"@) == Some(JsonView::Int(row.sid as int))
            &&& member_of(external, "verdictId"@) == Some(JsonView::Int(row.verdict_id as int))
            &&& member_of(external, "verdict"@) == Some(JsonView::Str(verdict))
            &&& member_of(external, "verdictAbbr"@) == Some(JsonView::Str(abbreviation))
            &&& member_of(external, "languageId"@) == Some(JsonView::Int(row.language_id as int))
            &&& member_of(external, "runtimeMs"@) == Some(JsonView::Int(row.runtime_ms as int))
            &&& member_of(external, "submittedAtUnix"@) == Some(JsonView::Int(row.submitted_at as int))
            &&& member_of(external, "judgedAtUnix"@) == Some(JsonView::Int(judged_at))
            &&& member_of(member_of(doc, "compilation"@)->Some_0, "status"@) == Some(
                JsonView::Str(if row.verdict_id == 30 { "ERROR"@ } else { "OK"@ }),
            )
        }),
{
    reveal_strlit("type");
    reveal_strlit("score");
    reveal_strlit("maxScore");
    reveal_strlit("external");
    reveal_strlit("compilation");
    reveal_strlit("status");
    reveal_strlit("judge");
    reveal_strlit("problemNumber");
    reveal_strlit("submissionId");
    reveal_strlit("verdictId");
    reveal_strlit("verdict");
    reveal_strlit("verdictAbbr");
    reveal_strlit("languageId");
    reveal_strlit("runtimeMs");
    reveal_strlit("submittedAtUnix");
    reveal_strlit("judgedAtUnix");
    let doc = details_view(problem_number, row, verdict, abbreviation, solved, judged_at);
    let top = doc->Object_0;
    let ext = top[3].1->Object_0;
    assert forall|at: int| 0 <= at < top.len() implies lookup(top, #[trigger] top[at].0) == Some(top[at].1) by {
        assert forall|j: int| 0 <= j < at implies top[j].0 != top[at].0 by {
            assert(top[j].0.len() != top[at].0.len() || top[j].0[0] != top[at].0[0]);
        }
        lemma_lookup_at(top, top[at].0, at);
    }
    assert forall|at: int| 0 <= at < ext.len() implies lookup(ext, #[trigger] ext[at].0) == Some(ext[at].1) by {
        assert forall|j: int| 0 <= j < at implies ext[j].0 != ext[at].0 by {
            assert(ext[j].0.len() != ext[at].0.len() || ext[j].0[0] != ext[at].0[0]
                || ext[j].0[7] != ext[at].0[7]);
        }
        lemma_lookup_at(ext, ext[at].0, at);
    }
    let comp = top[4].1->Object_0;
    lemma_lookup_at(comp, "status"@, 0);
    assert(top[0].0 == "type"@);
    assert(top[1].0 == "score"@);
    assert(top[2].0 == "maxScore"@);
    assert(top[3].0 == "external"@);
    assert(top[4].0 == "compilation"@);
    assert(ext[0].0 == "judge"@);
    assert(ext[1].0 == "problemNumber"@);
    assert(ext[2].0 == "submissionId"@);
    assert(ext[3].0 == "verdictId"@);
    assert(ext[4].0 == "verdict"@);
    assert(ext[5].0 == "verdictAbbr"@);
    assert(ext[6].0 == "languageId"@);
    assert(ext[7].0 == "runtimeMs"@);
    assert(ext[8].0 == "submittedAtUnix"@);
    assert(ext[9].0 == "judgedAtUnix"@);
}

/// **A submission that was never judged still says which one it was, and why,
/// and carries no score.** Read by member: the type is `uva@1`; under
/// `external` the judge, the public number and the submission's id; the
/// failure is the reason given; there is no `score`.
pub proof fn lemma_a_failure_names_its_submission(problem_number: int, sid: int, why: Seq<char>)
    ensures
        ({
            let doc = failure_view(problem_number, sid, why);
            let external = member_of(doc, "external"@)->Some_0;
            &&& member_of(doc, "type"@) == Some(JsonView::Str("uva@1"@))
            &&& member_of(doc, "external"@) is Some
            &&& member_of(external, "judge"@) == Some(JsonView::Str("onlinejudge.org"@))
            &&& member_of(external, "problemNumber"@) == Some(JsonView::Int(problem_number))
            &&& member_of(external, "submissionId"@) == Some(JsonView::Int(sid))
            &&& member_of(doc, "failure"@) == Some(JsonView::Str(why))
            &&& member_of(doc, "score"@) is None
        }),
{
    reveal_strlit("type");
    reveal_strlit("external");
    reveal_strlit("failure");
    reveal_strlit("score");
    reveal_strlit("judge");
    reveal_strlit("problemNumber");
    reveal_strlit("submissionId");
    let doc = failure_view(problem_number, sid, why);
    let top = doc->Object_0;
    let ext = top[1].1->Object_0;
    assert forall|at: int| 0 <= at < top.len() implies lookup(top, #[trigger] top[at].0) == Some(top[at].1) by {
        assert forall|j: int| 0 <= j < at implies top[j].0 != top[at].0 by {
            assert(top[j].0.len() != top[at].0.len() || top[j].0[0] != top[at].0[0]);
        }
        lemma_lookup_at(top, top[at].0, at);
    }
    assert forall|at: int| 0 <= at < ext.len() implies lookup(ext, #[trigger] ext[at].0) == Some(ext[at].1) by {
        assert forall|j: int| 0 <= j < at implies ext[j].0 != ext[at].0 by {
            assert(ext[j].0.len() != ext[at].0.len() || ext[j].0[0] != ext[at].0[0]);
        }
        lemma_lookup_at(ext, ext[at].0, at);
    }
    assert(top[0].0 == "type"@);
    assert(top[1].0 == "external"@);
    assert(top[2].0 == "failure"@);
    assert(ext[0].0 == "judge"@);
    assert(ext[1].0 == "problemNumber"@);
    assert(ext[2].0 == "submissionId"@);
    assert forall|j: int| 0 <= j < top.len() implies top[j].0 != "score"@ by {
        assert(top[j].0.len() != "score"@.len() || top[j].0[0] != 's');
    }
    lemma_lookup_missing(top, "score"@);
}

/// A member that no member is named is not found.
proof fn lemma_lookup_missing(members: Seq<(Seq<char>, JsonView)>, key: Seq<char>)
    requires
        forall|j: int| 0 <= j < members.len() ==> members[j].0 != key,
    ensures
        lookup(members, key) is None,
    decreases members.len(),
{
    if members.len() > 0 {
        lemma_lookup_missing(members.drop_first(), key);
    }
}

/// A member is found where it first appears.
proof fn lemma_lookup_at(members: Seq<(Seq<char>, JsonView)>, key: Seq<char>, at: int)
    requires
        0 <= at < members.len(),
        members[at].0 == key,
        forall|j: int| 0 <= j < at ==> members[j].0 != key,
    ensures
        lookup(members, key) == Some(members[at].1),
    decreases at,
{
    if at > 0 {
        lemma_lookup_at(members.drop_first(), key, at - 1);
    }
}

} // verus!
