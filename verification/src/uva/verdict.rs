//! What the archive said, turned into what the Server stores.
//!
//! **The line worth caring about runs between two rows.** `SubmissionError` and
//! `CannotBeJudged` are the external judge failing to form an opinion — not the
//! participant being wrong. Reporting either as a wrong answer marks somebody
//! down for our infrastructure, so they leave here as an infrastructure failure
//! and the Server refuses to score one.

use vstd::prelude::*;

use crate::integration::{Outcome, OutcomeView};

verus! {

/// uHunt's verdict ids and what each one means, read from
/// <https://onlinejudge.org/index.php?option=com_content&task=view&id=16>.
/// Anything not listed is treated as not-yet-judged rather than guessed at: a
/// number we do not know is not evidence that a person was wrong.
pub open spec fn verdict_of(id: int) -> OutcomeView {
    if id == 90 {
        OutcomeView::Judged { verdict: "Accepted"@, abbreviation: "AC"@ }
    } else if id == 80 {
        OutcomeView::Judged { verdict: "PresentationError"@, abbreviation: "PE"@ }
    } else if id == 70 {
        OutcomeView::Judged { verdict: "WrongAnswer"@, abbreviation: "WA"@ }
    } else if id == 60 {
        OutcomeView::Judged { verdict: "MemoryLimitExceeded"@, abbreviation: "ML"@ }
    } else if id == 50 {
        OutcomeView::Judged { verdict: "TimeLimitExceeded"@, abbreviation: "TL"@ }
    } else if id == 45 {
        OutcomeView::Judged { verdict: "OutputLimitExceeded"@, abbreviation: "OL"@ }
    } else if id == 40 {
        OutcomeView::Judged { verdict: "RuntimeError"@, abbreviation: "RE"@ }
    } else if id == 35 {
        OutcomeView::Judged { verdict: "RestrictedFunction"@, abbreviation: "RF"@ }
    } else if id == 30 {
        OutcomeView::Judged { verdict: "CompilationError"@, abbreviation: "CE"@ }
    } else if id == 10 {
        OutcomeView::Failed {
            reason: "onlinejudge.org refused the submission (submission error)"@,
            permanent: false,
        }
    } else if id == 15 {
        OutcomeView::Failed {
            reason: "onlinejudge.org has no tests for this problem (can't be judged)"@,
            permanent: true,
        }
    } else {
        OutcomeView::Pending
    }
}

/// uHunt's verdict id, as it appears at index 2 of a submission row.
pub fn of(id: i64) -> (o: Outcome)
    ensures
        o@ == verdict_of(id as int),
{
    if id == 90 {
        judged("Accepted", "AC")
    } else if id == 80 {
        judged("PresentationError", "PE")
    } else if id == 70 {
        judged("WrongAnswer", "WA")
    } else if id == 60 {
        judged("MemoryLimitExceeded", "ML")
    } else if id == 50 {
        judged("TimeLimitExceeded", "TL")
    } else if id == 45 {
        judged("OutputLimitExceeded", "OL")
    } else if id == 40 {
        judged("RuntimeError", "RE")
    } else if id == 35 {
        judged("RestrictedFunction", "RF")
    } else if id == 30 {
        judged("CompilationError", "CE")
    } else if id == 10 {
        Outcome::Failed {
            reason: "onlinejudge.org refused the submission (submission error)",
            permanent: false,
        }
    } else if id == 15 {
        Outcome::Failed {
            reason: "onlinejudge.org has no tests for this problem (can't be judged)",
            permanent: true,
        }
    } else {
        // In queue (0 and 20), and anything nobody has documented.
        Outcome::Pending
    }
}

/// The verdict id a compilation failure carries, which is the one thing the
/// result document's `compilation` member is derived from.
pub const COMPILATION_ERROR: i64 = 30;

fn judged(verdict: &'static str, abbreviation: &'static str) -> (o: Outcome)
    ensures
        o@ == (OutcomeView::Judged { verdict: verdict@, abbreviation: abbreviation@ }),
{
    Outcome::Judged { verdict, abbreviation }
}

/// **The judge failing is never a verdict**: the two ids that mean the archive
/// formed no opinion are failures, and only the archive's documented verdicts
/// are ever judged.
pub proof fn lemma_only_documented_ids_are_verdicts(id: int)
    ensures
        (id == 10 || id == 15) ==> verdict_of(id) is Failed,
        verdict_of(id) is Judged ==> (id == 90 || id == 80 || id == 70 || id == 60 || id == 50
            || id == 45 || id == 40 || id == 35 || id == 30),
        verdict_of(id) is Failed ==> (id == 10 || id == 15),
        verdict_of(id) is Failed ==> (verdict_of(id)->permanent <==> id == 15),
{
}

/// The one id the result document reads directly names a compilation error.
pub proof fn lemma_compilation_error_id_is_ce()
    ensures
        verdict_of(COMPILATION_ERROR as int) == (OutcomeView::Judged {
            verdict: "CompilationError"@,
            abbreviation: "CE"@,
        }),
{
}

/// **Each documented id means what the archive's page says it means**, and
/// every other id is still in the queue: 90 Accepted (AC), 80
/// PresentationError (PE), 70 WrongAnswer (WA), 60 MemoryLimitExceeded (ML),
/// 50 TimeLimitExceeded (TL), 45 OutputLimitExceeded (OL), 40 RuntimeError
/// (RE), 35 RestrictedFunction (RF), 30 CompilationError (CE); 10 a submission
/// error that may be tried again, 15 a problem that cannot be judged at all.
pub proof fn lemma_each_id_means_what_the_archive_says(id: int)
    ensures
        id == 90 ==> verdict_of(id) == (OutcomeView::Judged { verdict: "Accepted"@, abbreviation: "AC"@ }),
        id == 80 ==> verdict_of(id) == (OutcomeView::Judged { verdict: "PresentationError"@, abbreviation: "PE"@ }),
        id == 70 ==> verdict_of(id) == (OutcomeView::Judged { verdict: "WrongAnswer"@, abbreviation: "WA"@ }),
        id == 60 ==> verdict_of(id) == (OutcomeView::Judged { verdict: "MemoryLimitExceeded"@, abbreviation: "ML"@ }),
        id == 50 ==> verdict_of(id) == (OutcomeView::Judged { verdict: "TimeLimitExceeded"@, abbreviation: "TL"@ }),
        id == 45 ==> verdict_of(id) == (OutcomeView::Judged { verdict: "OutputLimitExceeded"@, abbreviation: "OL"@ }),
        id == 40 ==> verdict_of(id) == (OutcomeView::Judged { verdict: "RuntimeError"@, abbreviation: "RE"@ }),
        id == 35 ==> verdict_of(id) == (OutcomeView::Judged { verdict: "RestrictedFunction"@, abbreviation: "RF"@ }),
        id == 30 ==> verdict_of(id) == (OutcomeView::Judged { verdict: "CompilationError"@, abbreviation: "CE"@ }),
        id == 10 ==> verdict_of(id) == (OutcomeView::Failed {
            reason: "onlinejudge.org refused the submission (submission error)"@,
            permanent: false,
        }),
        id == 15 ==> verdict_of(id) == (OutcomeView::Failed {
            reason: "onlinejudge.org has no tests for this problem (can't be judged)"@,
            permanent: true,
        }),
        !(id == 90 || id == 80 || id == 70 || id == 60 || id == 50 || id == 45 || id == 40
            || id == 35 || id == 30 || id == 10 || id == 15) ==> verdict_of(id) == OutcomeView::Pending,
{
}

} // verus!
