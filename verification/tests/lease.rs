use algojudge_external_runner::lease::{act, ceiling, Action, Standing};

#[test]
fn a_renewed_lease_just_carries_on() {
    assert_eq!(act(Standing::Held, 0, 10), Action::KeepWaiting);
}

#[test]
fn a_lost_lease_is_dropped_without_reporting() {
    assert_eq!(act(Standing::Lost, 0, 10), Action::DropSilently);
    assert_eq!(act(Standing::Lost, 99, 10), Action::DropSilently);
}

#[test]
fn an_unreachable_server_is_waited_out_then_given_up() {
    assert_eq!(act(Standing::Unreachable, 1, 5), Action::KeepWaiting);
    assert_eq!(act(Standing::Unreachable, 4, 5), Action::KeepWaiting);
    assert_eq!(act(Standing::Unreachable, 5, 5), Action::GiveUp);
}

#[test]
fn the_ceiling_leaves_the_lease_still_alive() {
    assert_eq!(ceiling(1200, 60), 19);
    assert_eq!(ceiling(1200, 20), 59);
}

#[test]
fn the_ceiling_is_never_zero() {
    assert_eq!(ceiling(60, 60), 1);
    assert_eq!(ceiling(1, 3600), 1);
    assert_eq!(ceiling(1200, 0), 1199);
}

#[test]
fn what_the_server_said_is_read_from_its_classifier() {
    assert_eq!(Standing::of(true), Standing::Lost);
    assert_eq!(Standing::of(false), Standing::Unreachable);
}
