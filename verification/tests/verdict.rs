use algojudge_external_runner::integration::{solved, Outcome};
use algojudge_external_runner::uva::verdict::{of, COMPILATION_ERROR};

#[test]
fn verdict_every_documented_verdict_is_mapped() {
    for (id, verdict, abbreviation) in [
        (90, "Accepted", "AC"),
        (80, "PresentationError", "PE"),
        (70, "WrongAnswer", "WA"),
        (60, "MemoryLimitExceeded", "ML"),
        (50, "TimeLimitExceeded", "TL"),
        (45, "OutputLimitExceeded", "OL"),
        (40, "RuntimeError", "RE"),
        (35, "RestrictedFunction", "RF"),
        (30, "CompilationError", "CE"),
    ] {
        assert_eq!(
            of(id),
            Outcome::Judged {
                verdict,
                abbreviation
            },
            "uHunt {id}"
        );
    }
}

#[test]
fn verdict_queued_is_not_an_answer() {
    assert_eq!(of(0), Outcome::Pending);
    assert_eq!(of(20), Outcome::Pending);
}

#[test]
fn verdict_the_judge_failing_is_never_a_verdict() {
    let Outcome::Failed {
        permanent: retryable_one,
        ..
    } = of(10)
    else {
        panic!("submission error was reported as a verdict");
    };
    assert!(!retryable_one, "a submission error may be tried again");

    let Outcome::Failed {
        permanent: permanent_one,
        ..
    } = of(15)
    else {
        panic!("can't-be-judged was reported as a verdict");
    };
    assert!(permanent_one, "can't-be-judged must not be retried");
}

#[test]
fn verdict_an_unknown_id_waits_rather_than_guessing() {
    assert_eq!(of(999), Outcome::Pending);
    assert_eq!(of(-1), Outcome::Pending);
}

#[test]
fn the_compilation_error_id_is_the_one_that_maps_to_ce() {
    assert_eq!(
        of(COMPILATION_ERROR),
        Outcome::Judged {
            verdict: "CompilationError",
            abbreviation: "CE"
        }
    );
}

#[test]
fn verdict_what_counts_as_solved_is_configuration() {
    let strict = vec!["AC".to_owned()];
    let lenient = vec!["AC".to_owned(), "PE".to_owned()];

    assert!(solved("AC", &strict));
    assert!(!solved("PE", &strict));
    assert!(solved("PE", &lenient));
    assert!(solved("ac", &strict));
}

#[test]
fn the_two_failures_say_what_the_archive_said() {
    assert_eq!(
        of(10),
        Outcome::Failed {
            reason: "onlinejudge.org refused the submission (submission error)",
            permanent: false
        }
    );
    assert_eq!(
        of(15),
        Outcome::Failed {
            reason: "onlinejudge.org has no tests for this problem (can't be judged)",
            permanent: true
        }
    );
}
