use algojudge_external_runner::integration::{failure_reason, judging, solved};
use algojudge_external_runner::json::Json;

fn from_value(value: &serde_json::Value) -> Json {
    match value {
        serde_json::Value::Null => Json::Null,
        serde_json::Value::Bool(b) => Json::Bool(*b),
        serde_json::Value::Number(n) => match (n.as_i64(), n.as_u64()) {
            (Some(i), _) => Json::Int(i),
            (None, Some(u)) => Json::Big(u),
            _ => Json::Fraction(n.to_string()),
        },
        serde_json::Value::String(s) => Json::Str(s.clone()),
        serde_json::Value::Array(items) => Json::Array(items.iter().map(from_value).collect()),
        serde_json::Value::Object(members) => Json::Object(
            members
                .iter()
                .map(|(k, v)| (k.clone(), from_value(v)))
                .collect(),
        ),
    }
}

fn document(text: &str) -> Option<Json> {
    Some(from_value(&serde_json::from_str(text).unwrap()))
}

#[test]
fn integration_strict_is_the_default_when_the_assignment_says_nothing() {
    assert_eq!(judging(None).unwrap().1, vec!["AC".to_owned()]);
    assert_eq!(judging(document("{}").as_ref()).unwrap().1, vec!["AC".to_owned()]);
}

#[test]
fn integration_an_assignment_may_widen_what_counts_as_solved() {
    let lenient = document(r#"{"scoring":{"acceptedVerdicts":["AC","PE"]}}"#);
    assert_eq!(
        judging(lenient.as_ref()).unwrap().1,
        vec!["AC".to_owned(), "PE".to_owned()]
    );
}

#[test]
fn an_assignment_may_narrow_the_languages() {
    let narrowed = document(r#"{"languages":["python3"]}"#);
    assert_eq!(judging(narrowed.as_ref()).unwrap().0, vec!["python3".to_owned()]);
    assert!(judging(None).unwrap().0.is_empty(), "silence allows all");
}

#[test]
fn integration_what_counts_as_solved_is_configuration() {
    let strict = vec!["AC".to_owned()];
    let lenient = vec!["AC".to_owned(), "PE".to_owned()];

    assert!(solved("AC", &strict));
    assert!(!solved("PE", &strict));
    assert!(solved("PE", &lenient));
    assert!(solved("ac", &strict));
}

#[test]
fn an_assignment_that_accepts_nothing_still_counts_a_solve() {
    let empty = document(r#"{"scoring":{"acceptedVerdicts":[]}}"#);
    assert_eq!(judging(empty.as_ref()).unwrap().1, vec!["AC".to_owned()]);
}

#[test]
fn an_unreadable_assignment_is_refused() {
    let broken = document(r#"{"languages":"python3"}"#);
    let refused = judging(broken.as_ref()).unwrap_err().message();
    assert!(refused.contains("assignment's configuration"), "{refused}");
    let not_an_object = document(r#"[1,2]"#);
    assert!(judging(not_an_object.as_ref()).is_err());
}

#[test]
fn a_failure_says_whether_judging_again_could_help() {
    let permanent = failure_reason("no tests", true);
    assert_eq!(permanent, "no tests; judging it again will not help");
    let passing = failure_reason("refused", false);
    assert_eq!(passing, "refused; judging it again may help");
}
