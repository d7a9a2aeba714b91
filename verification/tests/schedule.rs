use algojudge_external_runner::schedule::interval;

const MIN: u64 = 20_000;
const MAX: u64 = 60_000;
const ESCALATE: u64 = 120_000;

#[test]
fn long_polling_makes_the_net_flat() {
    for waited in [0u64, 30, 119, 121, 600] {
        assert_eq!(
            interval(true, waited * 1000, MIN, MAX, ESCALATE),
            MAX,
            "waited {waited}s"
        );
    }
}

#[test]
fn without_it_the_interval_escalates_once() {
    assert_eq!(interval(false, 0, MIN, MAX, ESCALATE), MIN);
    assert_eq!(interval(false, 119_000, MIN, MAX, ESCALATE), MIN);
    assert_eq!(interval(false, 120_000, MIN, MAX, ESCALATE), MAX);
    assert_eq!(interval(false, 600_000, MIN, MAX, ESCALATE), MAX);
}

#[test]
fn the_net_is_never_faster_than_the_floor() {
    let interval = interval(false, 0, MIN, MAX, ESCALATE);
    assert!(interval >= MIN, "{interval:?}");
}

#[test]
fn escalation_is_a_property_of_the_wait_to_the_millisecond() {
    assert_eq!(interval(false, 119_999, MIN, MAX, ESCALATE), MIN);
    assert_eq!(interval(false, 120_000, MIN, MAX, ESCALATE), MAX);
}
