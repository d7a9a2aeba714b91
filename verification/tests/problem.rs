use algojudge_external_runner::integration::Chosen;
use algojudge_external_runner::json::Json;
use algojudge_external_runner::uva::language::ids;
use algojudge_external_runner::uva::problem::read;

fn from_value(value: &serde_json::Value) -> Json {
    match value {
        serde_json::Value::Null => Json::Null,
        serde_json::Value::Bool(b) => Json::Bool(*b),
        serde_json::Value::Number(n) => match (n.as_i64(), n.as_u64()) {
            (Some(i), _) => Json::Int(i),
            (None, Some(u)) => Json::Big(u),
            _ => Json::Fraction(n.to_string()),
        },
        serde_json::Value::String(s) => Json::Str(s.clone()),
        serde_json::Value::Array(items) => Json::Array(items.iter().map(from_value).collect()),
        serde_json::Value::Object(members) => Json::Object(
            members
                .iter()
                .map(|(k, v)| (k.clone(), from_value(v)))
                .collect(),
        ),
    }
}

fn document(text: &str) -> Option<Json> {
    Some(from_value(&serde_json::from_str(text).unwrap()))
}

/// The version's document: which problem this is.
fn identity() -> Option<Json> {
    document(r#"{"type":"uva@1","uva":{"problemNumber":100,"specialJudge":false}}"#)
}

#[test]
fn the_number_comes_from_the_version_and_the_languages_from_the_type() {
    let setup = read(identity().as_ref(), None).unwrap();
    assert_eq!(setup.number, 100);
    assert_eq!(setup.accepted, vec!["AC".to_owned()]);
    assert_eq!(setup.language(Some("cpp11-gcc")), Chosen::Accepted(5));
}

#[test]
fn problem_an_assignment_may_widen_what_counts_as_solved() {
    let lenient = document(r#"{"scoring":{"acceptedVerdicts":["AC","PE"]}}"#);
    let setup = read(identity().as_ref(), lenient.as_ref()).unwrap();

    assert_eq!(setup.accepted, vec!["AC".to_owned(), "PE".to_owned()]);
    assert_eq!(setup.number, 100, "and it says nothing about which problem");
}

#[test]
fn problem_strict_is_the_default_when_the_assignment_says_nothing() {
    assert_eq!(
        read(identity().as_ref(), None).unwrap().accepted,
        vec!["AC".to_owned()],
    );
    let bare = document(r#"{}"#);
    assert_eq!(
        read(identity().as_ref(), bare.as_ref()).unwrap().accepted,
        vec!["AC".to_owned()],
    );
}

#[test]
fn problem_a_configuration_that_cannot_work_says_which_part() {
    let none = read(None, None).unwrap_err().message();
    assert!(none.contains("no UVa problem number"), "{none}");
    assert!(none.contains("props"), "{none}");

    let no_number = document(r#"{"type":"uva@1"}"#);
    let refused = read(no_number.as_ref(), None).unwrap_err().message();
    assert!(refused.contains("uva.problemNumber"), "{refused}");

    let negative = document(r#"{"uva":{"problemNumber":0}}"#);
    let refused = read(negative.as_ref(), None).unwrap_err().message();
    assert!(refused.contains("not a problem number"), "{refused}");

    let wrong_type = document(r#"{"type":"standard-io@1","uva":{"problemNumber":100}}"#);
    let refused = read(wrong_type.as_ref(), None).unwrap_err().message();
    assert!(refused.contains("uva@1"), "{refused}");
}

#[test]
fn problem_a_language_the_assignment_excluded_is_not_allowed_rather_than_unknown() {
    let narrowed = document(r#"{"languages":["python3"]}"#);
    let setup = read(identity().as_ref(), narrowed.as_ref()).unwrap();

    assert_eq!(
        setup.language(Some("cpp11-gcc")),
        Chosen::NotAllowed {
            wanted: "cpp11-gcc".into(),
            allowed: vec!["python3".into()],
        },
    );
    assert_eq!(setup.language(Some("python3")), Chosen::Accepted(6));
    assert!(matches!(setup.language(Some("rust")), Chosen::NotSubmittable(_)));
}

#[test]
fn problem_an_assignment_that_names_no_languages_allows_them_all() {
    let setup = read(identity().as_ref(), None).unwrap();
    for id in ids() {
        assert!(
            matches!(setup.language(Some(id)), Chosen::Accepted(_)),
            "{id} was refused",
        );
    }
}

#[test]
fn problem_an_unlisted_language_is_refused_and_says_what_is_on_offer() {
    let setup = read(identity().as_ref(), None).unwrap();
    let Chosen::NotSubmittable(refused) = setup.language(Some("rust")) else {
        panic!("a language onlinejudge.org does not offer must not be submittable");
    };
    assert!(refused.contains("rust"), "{refused}");
    assert!(refused.contains("cpp11-gcc"), "{refused}");

    let Chosen::NotSubmittable(missing) = setup.language(None) else {
        panic!("a submission naming no language cannot be forwarded");
    };
    assert!(missing.contains("names no language"), "{missing}");
}

#[test]
fn the_message_about_a_missing_number_reads_as_a_sentence() {
    let refused = read(None, None).unwrap_err().message();

    assert!(refused.contains("problemNumber"), "{refused}");
    assert!(
        !refused.contains("  "),
        "a run of spaces survived a collapsed line break: {refused}"
    );
}

#[test]
fn the_number_comes_from_the_version() {
    let setup = read(identity().as_ref(), None).unwrap();
    assert_eq!(setup.number, 100);
    assert_eq!(setup.accepted, vec!["AC".to_owned()]);
    assert!(setup.languages.is_empty(), "the type defines the six");
}

#[test]
fn the_scoring_comes_from_the_assignment() {
    let lenient = document(r#"{"scoring":{"acceptedVerdicts":["AC","PE"]}}"#);
    let setup = read(identity().as_ref(), lenient.as_ref()).unwrap();

    assert_eq!(setup.accepted, vec!["AC".to_owned(), "PE".to_owned()]);
    assert_eq!(setup.number, 100, "and it says nothing about which problem");
}

#[test]
fn props_that_are_not_an_object_are_unreadable() {
    let broken = document(r#"{"uva":"100"}"#);
    let refused = read(broken.as_ref(), None).unwrap_err().message();
    assert!(refused.contains("cannot be read"), "{refused}");
}

#[test]
fn an_unreadable_assignment_is_refused_even_for_a_good_problem() {
    let broken = document(r#"{"scoring":"strict"}"#);
    let refused = read(identity().as_ref(), broken.as_ref()).unwrap_err().message();
    assert!(refused.contains("assignment's configuration"), "{refused}");
}
