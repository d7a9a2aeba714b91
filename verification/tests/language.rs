use algojudge_external_runner::uva::language::{catalogue, for_id, ids};

#[test]
fn the_catalogue_is_the_six_the_archive_offers() {
    assert_eq!(
        ids(),
        vec![
            "c89-gcc",
            "java8",
            "cpp98-gcc",
            "pascal-fpc",
            "cpp11-gcc",
            "python3"
        ],
    );
}

#[test]
fn the_measured_entry_is_the_one_that_was_measured() {
    assert_eq!(for_id("cpp11-gcc").unwrap().number, 5);
}

#[test]
fn no_two_languages_post_the_same_value() {
    let mut numbers: Vec<i64> = catalogue().iter().map(|l| l.number).collect();
    numbers.sort_unstable();
    let before = numbers.len();
    numbers.dedup();
    assert_eq!(numbers.len(), before, "two entries share an archive number");
}

#[test]
fn a_shared_id_still_names_the_archives_own_compiler() {
    for id in ["c89-gcc", "cpp11-gcc", "python3"] {
        let label = for_id(id).unwrap().label;
        assert!(
            label.contains("5.3.0") || label.contains("3.5.1"),
            "{id} is labelled {label:?}, which does not say whose compiler it is",
        );
    }
}

#[test]
fn a_language_the_archive_does_not_offer_is_not_in_the_catalogue() {
    assert!(for_id("cpp20-gcc").is_none());
    assert!(for_id("pypy3").is_none());
    assert!(for_id("").is_none());
}
