use algojudge_external_runner::integration::{Chosen, Outcome, Setup};
use algojudge_external_runner::uva::language::ids;
use algojudge_external_runner::uva::uhunt::Row;
use algojudge_external_runner::uva::verdict::of;
use algojudge_external_runner::uva::{evidence, JUDGE, PROBLEM_TYPE};

fn setup(languages: &[&str]) -> Setup {
    Setup {
        languages: languages.iter().map(|l| (*l).to_owned()).collect(),
        number: 100,
        accepted: vec!["AC".to_owned()],
    }
}

#[test]
fn the_languages_come_from_the_type() {
    assert_eq!(setup(&[]).language(Some("cpp11-gcc")), Chosen::Accepted(5));
}

#[test]
fn mod_a_language_the_assignment_excluded_is_not_allowed_rather_than_unknown() {
    let narrowed = setup(&["python3"]);

    assert_eq!(
        narrowed.language(Some("cpp11-gcc")),
        Chosen::NotAllowed {
            wanted: "cpp11-gcc".into(),
            allowed: vec!["python3".into()],
        },
    );
    assert_eq!(narrowed.language(Some("python3")), Chosen::Accepted(6));
    assert!(matches!(narrowed.language(Some("rust")), Chosen::NotSubmittable(_)));
}

#[test]
fn mod_an_assignment_that_names_no_languages_allows_them_all() {
    for id in ids() {
        assert!(
            matches!(setup(&[]).language(Some(id)), Chosen::Accepted(_)),
            "{id} was refused",
        );
    }
}

#[test]
fn mod_an_unlisted_language_is_refused_and_says_what_is_on_offer() {
    let Chosen::NotSubmittable(refused) = setup(&[]).language(Some("rust")) else {
        panic!("a language onlinejudge.org does not offer must not be submittable");
    };
    assert!(refused.contains("rust"), "{refused}");
    assert!(refused.contains("cpp11-gcc"), "{refused}");
    assert!(refused.contains("onlinejudge.org"), "{refused}");

    let Chosen::NotSubmittable(missing) = setup(&[]).language(None) else {
        panic!("a submission naming no language cannot be forwarded");
    };
    assert!(missing.contains("names no language"), "{missing}");
}

#[test]
fn an_answer_is_read_through_the_members_it_names() {
    let row = Row {
        sid: 31254724,
        pid: 36,
        verdict_id: 70,
        runtime_ms: 120,
        submitted_at: 1786854437,
        language_id: 5,
    };

    assert_eq!(row.sid, 31254724, "the correlation key is the sid");
    assert_eq!(row.pid, 36, "the check is on uHunt's own pid");
    assert_eq!(
        of(row.verdict_id),
        Outcome::Judged {
            verdict: "WrongAnswer",
            abbreviation: "WA"
        }
    );
    assert_eq!(
        evidence(&row),
        "row: [31254724,36,70,120,1786854437,5]",
        "the row verbatim, in the order uHunt sends it"
    );
}

#[test]
fn the_type_and_the_judge_are_the_names_the_rest_of_the_product_uses() {
    assert_eq!(PROBLEM_TYPE, "uva@1");
    assert_eq!(JUDGE, "onlinejudge.org");
}

#[test]
fn the_refusal_lists_what_is_on_offer_in_the_catalogue_order() {
    let Chosen::NotSubmittable(refused) = setup(&[]).language(Some("rust")) else {
        panic!("rust is not offered");
    };
    assert_eq!(
        refused,
        "onlinejudge.org does not accept \"rust\"; it accepts [\"c89-gcc\", \"java8\", \"cpp98-gcc\", \"pascal-fpc\", \"cpp11-gcc\", \"python3\"]"
    );
}

#[test]
fn a_negative_row_is_recorded_with_its_sign() {
    let row = Row { sid: 1, pid: 2, verdict_id: 0, runtime_ms: -1, submitted_at: 0, language_id: 3 };
    assert_eq!(evidence(&row), "row: [1,2,0,-1,0,3]");
}
