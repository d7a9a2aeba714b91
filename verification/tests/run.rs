use algojudge_external_runner::config::{Config, External};
use algojudge_external_runner::integration::{Outcome, ReadError, Refused, Setup};
use algojudge_external_runner::json::Json;
use algojudge_external_runner::lease::{act, Action, Standing};
use algojudge_external_runner::pending::{Entry, Pending};
use algojudge_external_runner::run::{
    next_due, on_sign, pass, settled_after, sleep_for, submitted_entry, Pass,
    before_claim, claim_refused, claim_wait, declared, expiry_reason, held, on_arrival, Arrival,
    Intake, give_up_reason, handshake_refused, held_open,
    how_long, language_of, log_text, oldest_wait, prepare, record, refusal, registered,
    registration_refused, report_refused, settle, source_file, source_text,
    submission_trail, text_or_verdict, Blocked, Next, Settled, Trouble, NOT_TEXT, PRODUCT,
};
use algojudge_external_runner::uva::language::catalogue;
use algojudge_external_runner::uva::uhunt::Row;

fn config(problem_types: &[&str]) -> Config {
    Config {
        server_base_url: "http://server:8080/api/v1".into(),
        runner_name: "test".into(),
        problem_types: problem_types.iter().map(|t| (*t).to_owned()).collect(),
        tags: vec![],
        key_path: "/tmp/identity.key".into(),
        cache_path: "/tmp/cache".into(),
        lease_seconds: 1200,
        poll_wait: 0,
        claim_poll_min: 1,
        claim_poll_max: 30,
        external: External {
            judge: "uva".into(),
            base_url: "https://onlinejudge.org/".into(),
            api_base_url: "https://uhunt.onlinejudge.org/".into(),
            username: "robot".into(),
            password: "secret".into(),
            user_id: None,
            poll_min: 20,
            poll_max: 60,
            poll_escalate_after: 120,
            submit_min_interval: 5,
            pending_timeout: 900,
            max_pending: 20,
            long_poll_enabled: true,
        },
    }
}

fn props(language: &str) -> Json {
    Json::Object(vec![("language".to_owned(), Json::Str(language.to_owned()))])
}

fn setup(languages: &[&str]) -> Setup {
    Setup {
        languages: languages.iter().map(|l| (*l).to_owned()).collect(),
        number: 100,
        accepted: vec!["AC".to_owned()],
    }
}

fn entry(pid: i64, sent: u64) -> Entry {
    Entry {
        job_id: "job".into(),
        lease_token: "token".into(),
        problem_number: 100,
        pid,
        language_id: 1,
        sent,
        announced: false,
        unreachable: 0,
        accepted: vec!["AC".to_owned(), "PE".to_owned()],
        trail: vec!["sid: 7".to_owned()],
    }
}

fn row(sid: i64, pid: i64, verdict_id: i64) -> Row {
    Row { sid, pid, verdict_id, runtime_ms: 0, submitted_at: 0, language_id: 1 }
}

const QUIET: Trouble = Trouble {
    lease_lost: false,
    revoked: false,
    needs_handshake: false,
    not_approved: false,
    retryable: false,
    unavailable: false,
    in_maintenance: false,
};

#[test]
fn silence_declares_the_judges_own_type() {
    assert_eq!(declared(&config(&[]), "uva@1"), vec!["uva@1"]);
    assert_eq!(declared(&config(&["a@1", "b@2"]), "uva@1"), vec!["a@1", "b@2"]);
    assert_eq!(PRODUCT, "algojudge-external-runner");
}

#[test]
fn the_language_is_the_string_member_of_the_props() {
    assert_eq!(language_of(Some(&props("c89-gcc"))), Some("c89-gcc"));
    assert_eq!(language_of(None), None);
    let numbered = Json::Object(vec![("language".to_owned(), Json::Int(5))]);
    assert_eq!(language_of(Some(&numbered)), None);
}

#[test]
fn a_language_the_assignment_excluded_is_a_verdict_and_not_a_failure() {
    let blocked = prepare(Ok(setup(&["python3"])), Some(&props("cpp11-gcc")), "onlinejudge.org", &catalogue());
    assert_eq!(
        blocked.unwrap_err(),
        Blocked::Verdict("this problem does not accept cpp11-gcc here; it accepts [\"python3\"]".to_owned())
    );
}

#[test]
fn a_language_nobody_offers_is_the_platforms_failure() {
    let blocked = prepare(Ok(setup(&[])), Some(&props("rust")), "onlinejudge.org", &catalogue());
    assert!(matches!(blocked, Err(Blocked::Failure(why)) if why.contains("rust")));
    let unnamed = prepare(Ok(setup(&[])), None, "onlinejudge.org", &catalogue());
    assert!(matches!(unnamed, Err(Blocked::Failure(why)) if why.contains("names no language")));
}

#[test]
fn an_unreadable_problem_fails_once_with_the_message_that_names_the_field() {
    let blocked = prepare(Err(ReadError::NoNumber), Some(&props("c89-gcc")), "onlinejudge.org", &catalogue());
    assert_eq!(
        blocked.unwrap_err(),
        Blocked::Failure("the problem version's props have no uva.problemNumber".to_owned())
    );
}

#[test]
fn a_prepared_job_carries_the_judges_number_for_its_language() {
    let (ready, number) = prepare(Ok(setup(&[])), Some(&props("python3")), "onlinejudge.org", &catalogue()).unwrap();
    assert_eq!(number, 6);
    assert_eq!(ready, setup(&[]));
}

#[test]
fn the_longer_wait_wins() {
    assert_eq!(how_long(30_000, Some(300_000)), 300_000);
    assert_eq!(how_long(30_000, Some(0)), 30_000);
    assert_eq!(how_long(30_000, None), 30_000);
}

#[test]
fn a_claim_held_for_half_the_wait_was_held_open() {
    assert!(held_open(Some(30_000), 15_000));
    assert!(!held_open(Some(30_000), 14_999));
    assert!(!held_open(None, 60_000));
}

#[test]
fn the_source_is_the_file_named_source_else_the_first() {
    let names = |n: &[&str]| n.iter().map(|s| (*s).to_owned()).collect::<Vec<_>>();
    assert_eq!(source_file(&names(&["main.c", "source"])), Some(1));
    assert_eq!(source_file(&names(&["main.c", "other.c"])), Some(0));
    assert_eq!(source_file(&names(&[])), None);
}

#[test]
fn a_source_that_is_not_text_is_a_verdict_and_not_a_failure() {
    assert_eq!(source_text(b"int main(){}".to_vec()), Ok("int main(){}".to_owned()));
    assert_eq!(source_text("zażółć".as_bytes().to_vec()), Ok("zażółć".to_owned()));
    assert_eq!(source_text(vec![0xff, 0xfe, 0x00]), Err(Blocked::Verdict(NOT_TEXT.to_owned())));
    assert_eq!(text_or_verdict(None), Err(Blocked::Verdict("the source file is not valid UTF-8 text".to_owned())));
}

#[test]
fn the_trail_starts_with_what_was_sent_and_the_id_it_got() {
    assert_eq!(
        submission_trail(100, 5, 31254724),
        vec!["submitted problem 100 as language 5", "sid: 31254724"]
    );
}

#[test]
fn the_log_is_the_trail_one_line_each() {
    assert_eq!(log_text(&[]), None);
    assert_eq!(log_text(&["one".to_owned()]), Some("one".to_owned()));
    assert_eq!(
        log_text(&["one".to_owned(), "two".to_owned(), "three".to_owned()]),
        Some("one\ntwo\nthree".to_owned())
    );
}

#[test]
fn a_refusal_names_the_judge() {
    assert_eq!(refusal("onlinejudge.org", &Refused::SessionLapsed), "the onlinejudge.org session had lapsed");
    assert_eq!(
        refusal("onlinejudge.org", &Refused::Site("too fast".into())),
        "onlinejudge.org refused the submission: too fast"
    );
    let unnamed = refusal("onlinejudge.org", &Refused::AcceptedWithoutAnId);
    assert!(unnamed.starts_with("onlinejudge.org received the submission"), "{unnamed}");
    assert!(unnamed.contains("look at the account before rejudging"), "{unnamed}");
}

#[test]
fn the_assignment_decides_the_score() {
    let accepted = vec!["AC".to_owned()];
    let wa = Outcome::Judged { verdict: "WrongAnswer", abbreviation: "WA" };
    let ac = Outcome::Judged { verdict: "Accepted", abbreviation: "AC" };
    assert_eq!(settle(Outcome::Pending, &accepted), None);
    assert_eq!(settle(ac, &accepted), Some(Settled::Judged { verdict: "Accepted", abbreviation: "AC", solved: true }));
    assert_eq!(settle(wa, &accepted), Some(Settled::Judged { verdict: "WrongAnswer", abbreviation: "WA", solved: false }));
    assert_eq!(
        settle(Outcome::Failed { reason: "no tests", permanent: true }, &accepted),
        Some(Settled::Failed { why: "no tests; judging it again will not help".to_owned() })
    );
}

#[test]
fn an_answer_that_is_ours_is_recorded_and_one_that_is_not_is_silence() {
    let mut pending = Pending::default();
    pending.insert(7, entry(36, 0));

    let stranger = record(&mut pending, &row(8, 36, 90), Outcome::Pending, "row: [8]".into());
    assert_eq!(stranger, None);
    let disagrees = record(&mut pending, &row(7, 99, 90), Outcome::Pending, "row: [7,99]".into());
    assert_eq!(disagrees, None);
    assert_eq!(pending.get_mut(7).unwrap().trail, vec!["sid: 7".to_owned()]);

    let queued = record(&mut pending, &row(7, 36, 20), Outcome::Pending, "row: [7,36,20]".into());
    assert_eq!(queued, None);
    let judged = record(
        &mut pending,
        &row(7, 36, 80),
        Outcome::Judged { verdict: "PresentationError", abbreviation: "PE" },
        "row: [7,36,80]".into(),
    );
    assert_eq!(judged, Some(Settled::Judged { verdict: "PresentationError", abbreviation: "PE", solved: true }));
    assert_eq!(
        pending.take(7).unwrap().trail,
        vec!["sid: 7".to_owned(), "row: [7,36,20]".to_owned(), "row: [7,36,80]".to_owned()]
    );
}

#[test]
fn what_a_late_submission_is_told() {
    assert_eq!(
        expiry_reason("onlinejudge.org", 31254724, 900),
        "onlinejudge.org did not judge submission 31254724 within 900 seconds"
    );
}

#[test]
fn what_a_submission_given_up_on_is_told() {
    assert_eq!(
        give_up_reason("onlinejudge.org", 7, 19),
        "the Server could not be reached for 19 renewal cycles in a row, so this Runner stopped holding submission 7 on onlinejudge.org. The submission is on the account and was never collected; a rejudge would send it again"
    );
}

#[test]
fn a_server_that_answers_starts_the_count_again() {
    let mut pending = Pending::default();
    pending.insert(7, entry(36, 0));
    let mut step = |standing: Standing| {
        let consecutive = pending.renewal(7, standing != Standing::Unreachable);
        (consecutive, act(standing, consecutive, 3))
    };
    assert_eq!(step(Standing::Unreachable), (1, Action::KeepWaiting));
    assert_eq!(step(Standing::Unreachable), (2, Action::KeepWaiting));
    assert_eq!(step(Standing::Unreachable), (3, Action::GiveUp));
    assert_eq!(step(Standing::Held), (0, Action::KeepWaiting));
    assert_eq!(step(Standing::Unreachable), (1, Action::KeepWaiting));
    assert_eq!(step(Standing::Lost), (0, Action::DropSilently));
}

#[test]
fn the_oldest_wait_is_the_longest_one() {
    let mut pending = Pending::default();
    assert_eq!(oldest_wait(&pending, 10_000), 0);
    pending.insert(1, entry(36, 9_000));
    pending.insert(2, entry(36, 4_000));
    pending.insert(3, entry(36, 12_000));
    assert_eq!(oldest_wait(&pending, 10_000), 6_000);
}

#[test]
fn a_registration_under_another_key_is_refused() {
    assert_eq!(registered(true, "ab:cd", "ab:cd"), Next::Proceed);
    assert_eq!(registered(false, "ab:cd", "ef:01"), Next::Wait);
    let Next::Stop(why) = registered(true, "ab:cd", "ef:01") else {
        panic!("a mismatched key must stop the Runner");
    };
    assert_eq!(
        why,
        "the Server registered the fingerprint ab:cd and this Runner holds ef:01; the key on disk is not the key the Server knows"
    );
}

#[test]
fn a_revoked_key_stops_the_runner_wherever_it_is_heard() {
    let revoked = Trouble { revoked: true, retryable: true, ..QUIET };
    let expected = Next::Stop(
        "this Runner's key has been revoked; it needs a new key and a new registration, which no retry can do: 403".to_owned(),
    );
    assert_eq!(registration_refused(revoked, "403"), expected);
    assert_eq!(handshake_refused(revoked, "403"), expected);
    assert_eq!(claim_refused(revoked, "403"), expected);
}

#[test]
fn a_server_that_is_not_serving_is_waited_out() {
    let down = Trouble { unavailable: true, ..QUIET };
    assert_eq!(registration_refused(down, "503"), Next::WaitOut);
    assert_eq!(claim_refused(down, "503"), Next::WaitOut);
    assert_eq!(handshake_refused(down, "503"), Next::Wait);
    assert_eq!(report_refused(down), Next::Wait);
    assert_eq!(
        registration_refused(QUIET, "400"),
        Next::Stop("the Server refused the registration: 400".to_owned())
    );
    assert_eq!(
        handshake_refused(QUIET, "400"),
        Next::Stop("the Server refused the handshake: 400".to_owned())
    );
    assert_eq!(handshake_refused(Trouble { not_approved: true, ..QUIET }, "x"), Next::Wait);
}

#[test]
fn a_lapsed_token_is_a_new_handshake_and_anything_else_a_warning() {
    assert_eq!(claim_refused(Trouble { needs_handshake: true, ..QUIET }, "401"), Next::Handshake);
    assert_eq!(claim_refused(QUIET, "418"), Next::Warn);
}

#[test]
fn a_lost_lease_drops_the_answer_and_a_refusal_abandons_it() {
    assert_eq!(report_refused(Trouble { lease_lost: true, retryable: true, ..QUIET }), Next::Drop);
    assert_eq!(report_refused(QUIET), Next::Abandon);
    assert_eq!(report_refused(Trouble { in_maintenance: true, ..QUIET }), Next::Wait);
}

#[test]
fn a_stop_comes_before_anything_and_a_full_set_waits() {
    assert_eq!(before_claim(true, 0, 200), Intake::Stop);
    assert_eq!(before_claim(true, 200, 200), Intake::Stop);
    assert_eq!(before_claim(false, 200, 200), Intake::Full);
    assert_eq!(before_claim(false, 199, 200), Intake::Claim);
}

#[test]
fn a_job_arriving_as_the_stop_lands_is_given_back() {
    assert_eq!(on_arrival(true), Arrival::GiveBack);
    assert_eq!(on_arrival(false), Arrival::Forward);
}

#[test]
fn no_wait_asks_for_no_held_claim() {
    assert_eq!(claim_wait(0), None);
    assert_eq!(claim_wait(25), Some(25));
}

#[test]
fn every_held_job_is_named_for_handing_back() {
    let mut pending = Pending::default();
    assert!(held(&pending).is_empty());
    let mut later = entry(36, 0);
    later.job_id = "job-9".into();
    later.lease_token = "token-9".into();
    pending.insert(9, later);
    pending.insert(3, entry(36, 0));
    assert_eq!(
        held(&pending),
        vec![
            (3, "job".to_owned(), "token".to_owned()),
            (9, "job-9".to_owned(), "token-9".to_owned()),
        ]
    );
}

#[test]
fn a_pass_does_whatever_has_come_due() {
    assert_eq!(pass(100, 100, 200), Pass { renew: true, collect: false });
    assert_eq!(pass(100, 150, 50), Pass { renew: false, collect: true });
    assert_eq!(pass(99, 100, 100), Pass { renew: false, collect: false });
}

#[test]
fn the_next_deadline_is_one_cycle_on_and_the_sleep_reaches_the_earlier() {
    assert_eq!(next_due(1_000, 20_000), 21_000);
    assert_eq!(next_due(u64::MAX - 5, 20_000), u64::MAX);
    assert_eq!(sleep_for(1_000, 21_000, 5_000), 4_000);
    assert_eq!(sleep_for(1_000, 3_000, 5_000), 2_000);
    assert_eq!(sleep_for(9_000, 3_000, 5_000), 0);
}

#[test]
fn a_sign_makes_collecting_due_and_leaves_renewal_alone() {
    assert_eq!(on_sign(4_000, 21_000), (21_000, 4_000));
    assert!(settled_after(0));
    assert!(!settled_after(1));
}

#[test]
fn a_submission_is_held_with_what_it_was_sent_as() {
    let held = submitted_entry("job-1", "token-1", setup(&[]), 36, 5, 31254724, 9_000);
    assert_eq!(held.job_id, "job-1");
    assert_eq!(held.lease_token, "token-1");
    assert_eq!(held.problem_number, 100);
    assert_eq!(held.pid, 36);
    assert_eq!(held.language_id, 5);
    assert_eq!(held.sent, 9_000);
    assert!(!held.announced);
    assert_eq!(held.unreachable, 0);
    assert_eq!(held.accepted, vec!["AC".to_owned()]);
    assert_eq!(held.trail, vec!["submitted problem 100 as language 5", "sid: 31254724"]);
}
