use algojudge_external_runner::json::Json;
use algojudge_external_runner::pending::Entry;
use algojudge_external_runner::report::{details, details_at, details_of_failure, now, seconds_or_zero};
use algojudge_external_runner::uva::uhunt::Row;

fn entry() -> Entry {
    Entry {
        job_id: "job".into(),
        lease_token: "token".into(),
        problem_number: 100,
        pid: 36,
        language_id: 1,
        sent: 0,
        announced: true,
        unreachable: 0,
        accepted: vec!["AC".to_owned()],
        trail: vec![
            "submitted problem 100 as language 1".into(),
            "redirect: …mosmsg=Submission+received+with+ID+31254724".into(),
            "sid: 31254724".into(),
        ],
    }
}

fn row(verdict_id: i64, runtime_ms: i64) -> Row {
    Row {
        sid: 31254724,
        pid: 36,
        verdict_id,
        runtime_ms,
        submitted_at: 1786854437,
        language_id: 1,
    }
}

/// The member at the end of a path of names.
fn at<'a>(doc: &'a Json, path: &[&str]) -> Option<&'a Json> {
    let mut here = doc;
    for name in path {
        here = here.member(name)?;
    }
    Some(here)
}

fn integer(doc: &Json, path: &[&str]) -> Option<i64> {
    match at(doc, path) {
        Some(Json::Int(n)) => Some(*n),
        _ => None,
    }
}

fn text<'a>(doc: &'a Json, path: &[&str]) -> Option<&'a str> {
    match at(doc, path) {
        Some(Json::Str(s)) => Some(s.as_str()),
        _ => None,
    }
}

#[test]
fn the_run_time_is_in_the_document_the_renderer_reads() {
    let document = details(&entry(), &row(90, 60), "Accepted", "AC", true);
    assert_eq!(integer(&document, &["external", "runtimeMs"]), Some(60));
    assert_eq!(integer(&document, &["external", "submissionId"]), Some(31254724));
    assert_eq!(text(&document, &["external", "verdictAbbr"]), Some("AC"));
    assert_eq!(integer(&document, &["score"]), Some(1));
    assert_eq!(integer(&document, &["maxScore"]), Some(1), "binary, on a scale of one");
}

#[test]
fn a_verdict_that_does_not_count_keeps_its_name_and_loses_its_point() {
    let document = details(&entry(), &row(80, 20), "PresentationError", "PE", false);
    assert_eq!(integer(&document, &["score"]), Some(0));
    assert_eq!(text(&document, &["external", "verdict"]), Some("PresentationError"));
    assert_eq!(text(&document, &["external", "verdictAbbr"]), Some("PE"));
}

#[test]
fn a_compile_error_is_the_only_thing_that_marks_compilation() {
    assert_eq!(
        text(
            &details(&entry(), &row(30, 0), "CompilationError", "CE", false),
            &["compilation", "status"]
        ),
        Some("ERROR")
    );
    assert_eq!(
        text(
            &details(&entry(), &row(70, 10), "WrongAnswer", "WA", false),
            &["compilation", "status"]
        ),
        Some("OK")
    );
}

#[test]
fn the_timestamps_are_seconds_and_are_named_as_such() {
    let document = details(&entry(), &row(90, 60), "Accepted", "AC", true);
    assert_eq!(integer(&document, &["external", "submittedAtUnix"]), Some(1786854437));
    assert!(integer(&document, &["external", "judgedAtUnix"]).unwrap() > 1_700_000_000);
    assert!(
        at(&document, &["external", "submittedAt"]).is_none(),
        "an ISO-looking name must not exist beside the seconds"
    );
}

#[test]
fn the_log_carries_the_rows_verbatim_and_the_id_they_were_matched_on() {
    let mut entry = entry();
    entry.trail.push("row: [31254724,36,20,0,1786854437,1,-1]".into());
    entry.trail.push("row: [31254724,36,70,0,1786854437,1,-1]".into());
    let log = entry.trail.join("\n");

    assert!(log.contains("31254724"), "the correlation key is in the log");
    assert!(log.contains("[31254724,36,70,0,1786854437,1,-1]"), "the row, verbatim");
    assert!(log.contains("redirect:"), "where the id came from");
}

#[test]
fn a_submission_that_was_never_judged_still_says_which_one_it_was() {
    let document = details_of_failure(&entry(), 31254724, "the archive did not answer in time");
    assert_eq!(integer(&document, &["external", "submissionId"]), Some(31254724));
    assert_eq!(text(&document, &["failure"]), Some("the archive did not answer in time"));
    assert!(at(&document, &["score"]).is_none(), "nothing unjudged carries a score");
}

#[test]
fn the_document_names_its_type_and_its_judge() {
    let document = details_at(&entry(), &row(90, 60), "Accepted", "AC", true, 1786854500);
    assert_eq!(text(&document, &["type"]), Some("uva@1"));
    assert_eq!(text(&document, &["external", "judge"]), Some("onlinejudge.org"));
    assert_eq!(integer(&document, &["external", "problemNumber"]), Some(100));
    assert_eq!(integer(&document, &["external", "verdictId"]), Some(90));
    assert_eq!(integer(&document, &["external", "languageId"]), Some(1));
    assert_eq!(integer(&document, &["external", "judgedAtUnix"]), Some(1786854500));
}

#[test]
fn the_clock_reads_seconds_since_the_epoch() {
    assert!(now() > 1_700_000_000);
}

#[test]
fn a_clock_before_the_epoch_reads_zero() {
    assert_eq!(seconds_or_zero(None), 0);
    assert_eq!(seconds_or_zero(Some(1786854437)), 1786854437);
}
