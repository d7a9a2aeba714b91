use algojudge_external_runner::json::Json;
use algojudge_external_runner::uva::uhunt::{
    account_id, cursor, rows, segment, Event, EventAbout, Problem, Row, UhuntError,
};

fn from_value(value: &serde_json::Value) -> Json {
    match value {
        serde_json::Value::Null => Json::Null,
        serde_json::Value::Bool(b) => Json::Bool(*b),
        serde_json::Value::Number(n) => match (n.as_i64(), n.as_u64()) {
            (Some(i), _) => Json::Int(i),
            (None, Some(u)) => Json::Big(u),
            _ => Json::Fraction(n.to_string()),
        },
        serde_json::Value::String(s) => Json::Str(s.clone()),
        serde_json::Value::Array(items) => Json::Array(items.iter().map(from_value).collect()),
        serde_json::Value::Object(members) => Json::Object(
            members
                .iter()
                .map(|(k, v)| (k.clone(), from_value(v)))
                .collect(),
        ),
    }
}

fn document(text: &str) -> Option<Json> {
    Some(from_value(&serde_json::from_str(text).unwrap()))
}

fn parsed(text: &str) -> Json {
    document(text).unwrap()
}

#[test]
fn a_username_uhunt_does_not_know_is_not_account_zero() {
    let refused = account_id("0", "robto").unwrap_err().message();
    assert!(refused.contains("robto"), "{refused}");
    assert!(refused.contains("does not know"), "{refused}");

    assert!(account_id("<html>down</html>", "robot").is_err());
    assert_eq!(account_id(" 12345\n", "robot").unwrap(), 12345);
}

#[test]
fn a_username_is_a_path_segment_and_not_a_path() {
    assert_eq!(segment("robot"), "robot");
    assert_eq!(segment("a.b-c_d~e"), "a.b-c_d~e");
    assert_eq!(segment("robot/../p/num/100"), "robot%2F..%2Fp%2Fnum%2F100");
    assert_eq!(segment("two words"), "two%20words");
    assert_eq!(segment("q?x=1"), "q%3Fx%3D1");
}

const SUBS: &str = r#"{"name":"A Robot","uname":"robot","subs":[
    [28887350,4838,90,60,1698133496,5,520],
    [28887351,36,20,0,1698133500,3,-1],
    [28887352,36,70,120,1698133600,3,-1]
]}"#;

#[test]
fn a_row_is_read_by_position() {
    let read = rows(&parsed(SUBS)).unwrap();
    assert_eq!(read.len(), 3);
    assert_eq!(
        read[0],
        Row {
            sid: 28887350,
            pid: 4838,
            verdict_id: 90,
            runtime_ms: 60,
            submitted_at: 1698133496,
            language_id: 5,
        }
    );
}

#[test]
fn a_malformed_row_is_skipped_rather_than_failing_the_poll() {
    let body = r#"{"subs":[[1,2,90,0,0,3,0],"nonsense",[],[4,5,70,0,0,3,0]]}"#;
    let read = rows(&parsed(body)).unwrap();
    assert_eq!(read.iter().map(|r| r.sid).collect::<Vec<_>>(), vec![1, 4]);
}

#[test]
fn the_cursor_is_one_below_the_oldest_outstanding() {
    assert_eq!(cursor(&[28887352, 28887350, 28887351]), Some(28887349));
}

#[test]
fn nothing_pending_means_no_request() {
    assert_eq!(cursor(&[]), None);
}

#[test]
fn the_cursor_moves_as_the_oldest_completes() {
    let mut pending = vec![100, 200, 300];
    assert_eq!(cursor(&pending), Some(99));
    pending.retain(|&sid| sid != 100);
    assert_eq!(cursor(&pending), Some(199));
    pending.clear();
    assert_eq!(cursor(&pending), None);
}

#[test]
fn a_problem_carries_the_internal_id_a_submission_row_uses() {
    let body = r#"{"pid":36,"num":100,"title":"The 3n + 1 problem","dacu":109011,
        "mrun":0,"mmem":1000000000,"nover":0,"sube":6949,"noj":0,"inq":0,"ce":139243,
        "rf":0,"re":100139,"ole":387,"tle":78877,"mle":5209,"wa":361824,"pe":6555,
        "ac":256349,"rtl":3000,"status":1,"rej":0}"#;
    let problem: Problem = Problem::read(100, &parsed(body)).unwrap();
    assert_eq!(problem.pid, 36);
    assert_eq!(problem.num, 100);
    assert_eq!(problem.title, "The 3n + 1 problem");
    assert_eq!(problem.status, 1);
}

#[test]
fn an_answer_without_rows_is_refused() {
    assert!(matches!(rows(&parsed(r#"{"name":"x"}"#)), Err(UhuntError::NoSubmissions)));
}

#[test]
fn an_unknown_problem_number_is_refused_by_number() {
    let refused = Problem::read(99999, &parsed("{}")).unwrap_err().message();
    assert!(refused.contains("99999"), "{refused}");
}

#[test]
fn an_unavailable_problem_cannot_be_judged() {
    let body = r#"{"pid":36,"num":100,"title":"t","status":0,"rtl":3000}"#;
    let problem = Problem::read(100, &parsed(body)).unwrap();
    assert!(problem.judgeable(100).is_err());
    let available = Problem::read(100, &parsed(r#"{"pid":36,"num":100,"title":"t","status":1,"rtl":3000}"#)).unwrap();
    assert_eq!(available.judgeable(100).unwrap(), 36);
}

#[test]
fn an_event_names_the_account_it_is_about() {
    let event = Event::read(&parsed(r#"{"id":812,"msg":{"uid":4711,"sid":1}}"#)).unwrap();
    assert_eq!(event.id, 812);
    assert_eq!(event.msg.uid, 4711);
    let bare = Event::read(&parsed(r#"{"id":813}"#)).unwrap();
    assert_eq!(bare.msg.uid, 0);
    assert!(EventAbout::read(&parsed(r#"{"uid":"x"}"#)).is_none());
}
