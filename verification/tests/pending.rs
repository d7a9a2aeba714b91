use algojudge_external_runner::pending::{Entry, Matched, Pending};
use algojudge_external_runner::uva::uhunt::{cursor, Row};

fn entry(pid: i64, sent: u64) -> Entry {
    Entry {
        job_id: "job".into(),
        lease_token: "token".into(),
        problem_number: 100,
        pid,
        language_id: 1,
        sent,
        announced: false,
        unreachable: 0,
        accepted: vec!["AC".to_owned()],
        trail: Vec::new(),
    }
}

fn row(sid: i64, pid: i64, verdict_id: i64) -> Row {
    Row {
        sid,
        pid,
        verdict_id,
        runtime_ms: 0,
        submitted_at: 0,
        language_id: 1,
    }
}

/// Milliseconds on an arbitrary clock.
const NOW: u64 = 5_000_000;

#[test]
fn a_row_we_did_not_send_is_not_ours_and_not_an_error() {
    let pending = Pending::default();
    assert_eq!(pending.matched(&row(31254725, 36, 90)), Matched::Stranger);
}

#[test]
fn a_row_we_sent_is_matched_by_its_id() {
    let mut pending = Pending::default();
    pending.insert(31254724, entry(36, NOW));
    assert!(matches!(
        pending.matched(&row(31254724, 36, 70)),
        Matched::Ours(_)
    ));
}

#[test]
fn a_row_whose_problem_disagrees_is_not_accepted_as_a_match() {
    let mut pending = Pending::default();
    pending.insert(31254724, entry(36, NOW));
    assert_eq!(
        pending.matched(&row(31254724, 4838, 90)),
        Matched::Disagrees {
            expected: 36,
            found: 4838
        }
    );
}

#[test]
fn the_timeout_runs_from_when_the_archive_accepted_it() {
    let mut pending = Pending::default();
    pending.insert(1, entry(36, NOW - 901_000));
    pending.insert(2, entry(36, NOW - 60_000));

    let late = pending.timed_out(900_000, NOW);
    assert_eq!(late, vec![1], "only the one past its deadline");
}

#[test]
fn an_empty_set_has_no_cursor_and_nothing_late() {
    let pending = Pending::default();
    assert!(pending.is_empty());
    assert_eq!(cursor(&pending.sids()), None);
    assert!(pending.timed_out(900_000, NOW).is_empty());
}

#[test]
fn the_cursor_follows_the_set() {
    let mut pending = Pending::default();
    pending.insert(300, entry(36, NOW));
    pending.insert(100, entry(36, NOW));
    assert_eq!(cursor(&pending.sids()), Some(99));

    pending.take(100);
    assert_eq!(cursor(&pending.sids()), Some(299));
}

#[test]
fn the_ids_come_lowest_first_and_the_entries_with_them() {
    let mut pending = Pending::default();
    pending.insert(300, entry(36, NOW));
    pending.insert(100, entry(4838, NOW));
    pending.insert(200, entry(1, NOW));
    assert_eq!(pending.sids(), vec![100, 200, 300]);
    assert_eq!(pending.len(), 3);
    let all = pending.iter();
    assert_eq!(all.iter().map(|(sid, e)| (*sid, e.pid)).collect::<Vec<_>>(), vec![(100, 4838), (200, 1), (300, 36)]);
}

#[test]
fn taking_an_entry_hands_it_back_once() {
    let mut pending = Pending::default();
    pending.insert(7, entry(36, NOW));
    assert_eq!(pending.take(7), Some(entry(36, NOW)));
    assert_eq!(pending.take(7), None);
    assert!(pending.is_empty());
}

#[test]
fn a_trail_is_appended_to_through_the_set() {
    let mut pending = Pending::default();
    pending.insert(7, entry(36, NOW));
    pending.get_mut(7).unwrap().trail.push("row: [7]".into());
    assert!(pending.get_mut(8).is_none());
    assert_eq!(pending.take(7).unwrap().trail, vec!["row: [7]".to_owned()]);
}

#[test]
fn the_deadline_itself_is_late() {
    let mut pending = Pending::default();
    pending.insert(1, entry(36, NOW - 900_000));
    pending.insert(2, entry(36, NOW - 899_999));
    assert_eq!(pending.timed_out(900_000, NOW), vec![1]);
}

#[test]
fn a_new_id_adds_one_and_a_known_one_replaces() {
    let mut pending = Pending::default();
    pending.insert(1, entry(36, NOW));
    pending.insert(2, entry(36, NOW));
    assert_eq!(pending.len(), 2);
    pending.insert(2, entry(4838, NOW));
    assert_eq!(pending.len(), 2);
    assert_eq!(pending.take(2).unwrap().pid, 4838);
}

#[test]
fn renewals_that_do_not_reach_the_server_are_counted_until_one_does() {
    let mut pending = Pending::default();
    pending.insert(7, entry(36, NOW));
    assert_eq!(pending.renewal(7, false), 1);
    assert_eq!(pending.renewal(7, false), 2);
    assert_eq!(pending.renewal(7, true), 0);
    assert_eq!(pending.renewal(7, false), 1);
    assert_eq!(pending.renewal(8, false), 0, "nothing is counted for a stranger");
    assert_eq!(pending.take(7).unwrap().unreachable, 1);
}
