use algojudge_external_runner::uva::site::{
    after_attempt, confirm_session, first_form, hidden_fields, login_fields, pause, shows_the_login_form,
    sid_from, source_to_send, submission_fields, SiteError, Step,
};

const LOGIN_PAGE: &str = r#"
    <html><body>
      <form action="/index.php" id="other_form"><input type="hidden" name="decoy" value="no"></form>
      <form action="/index.php?option=com_comprofiler&task=login" id="mod_loginform" method="post">
        <input type="text" name="username" size="18">
        <input type="password" name="passwd" size="18">
        <input type="hidden" name="option" value="com_comprofiler">
        <input type="hidden" name="remember" value="yes">
        <input type="hidden" name="7f1b1a2c3d4e5f60718293a4b5c6d7e8" value="1">
      </form>
    </body></html>"#;

#[test]
fn the_login_form_is_how_a_signed_out_page_is_known() {
    assert!(shows_the_login_form(LOGIN_PAGE));
    assert!(!shows_the_login_form(
        "<html><body>welcome, robot — <a href=\"/logout\">logout</a></body></html>"
    ));
    assert!(!shows_the_login_form("<html><body>nothing here</body></html>"));
}

#[test]
fn the_form_is_found_by_its_id_not_by_its_position() {
    let fields = hidden_fields(LOGIN_PAGE).unwrap();
    let names: Vec<_> = fields.iter().map(|(n, _)| n.as_str()).collect();
    assert!(names.contains(&"option"), "{names:?}");
    assert!(names.contains(&"7f1b1a2c3d4e5f60718293a4b5c6d7e8"), "{names:?}");
    assert!(!names.contains(&"decoy"), "a field from another form was read");
}

#[test]
fn a_page_without_the_form_says_the_layout_changed() {
    let refused = hidden_fields("<html><body>signed out</body></html>")
        .unwrap_err()
        .message();
    assert!(refused.contains("layout changed"), "{refused}");
}

#[test]
fn the_id_comes_out_of_the_redirect() {
    let encoded = "https://onlinejudge.org/index.php?option=com_onlinejudge&Itemid=25\
                   &page=submit_problem&category=&mosmsg=Submission+received+with+ID+31254724";
    assert_eq!(sid_from(encoded), Some(31254724));

    let decoded = "https://onlinejudge.org/index.php?…&mosmsg=Submission received with ID 31254726";
    assert_eq!(sid_from(decoded), Some(31254726));
}

#[test]
fn no_id_is_none_rather_than_a_panic() {
    assert_eq!(sid_from("https://onlinejudge.org/"), None);
    assert_eq!(sid_from("mosmsg=Submission+received+with+ID+"), None);
}

#[test]
fn the_source_travels_exactly_as_written() {
    let written = "#include <stdio.h>\nint main(void){return 0;}\n";
    assert_eq!(source_to_send(written), written);
}

#[test]
fn the_values_of_the_hidden_fields_travel_with_their_names() {
    let fields = hidden_fields(LOGIN_PAGE).unwrap();
    assert_eq!(
        fields,
        vec![
            ("option".to_owned(), "com_comprofiler".to_owned()),
            ("remember".to_owned(), "yes".to_owned()),
            ("7f1b1a2c3d4e5f60718293a4b5c6d7e8".to_owned(), "1".to_owned()),
        ]
    );
}

#[test]
fn a_form_without_hidden_fields_is_refused() {
    let page = r#"<html><body><form id="mod_loginform"><input type="text" name="username"></form></body></html>"#;
    assert_eq!(hidden_fields(page), Err(SiteError::NoHiddenFields));
}

#[test]
fn a_session_is_confirmed_by_both_signals() {
    assert_eq!(confirm_session(LOGIN_PAGE), Err(SiteError::CredentialsRefused));
    assert_eq!(confirm_session("<html><body>welcome</body></html>"), Err(SiteError::NoSession));
    assert_eq!(
        confirm_session("<html><body><a href=\"/x\">LogOut</a></body></html>"),
        Ok(())
    );
}

#[test]
fn the_sign_in_posts_the_hidden_fields_then_the_account() {
    let form = login_fields(vec![("option".into(), "x".into())], "robot", " pw ");
    assert_eq!(
        form,
        vec![
            ("option".to_owned(), "x".to_owned()),
            ("username".to_owned(), "robot".to_owned()),
            ("passwd".to_owned(), " pw ".to_owned()),
            ("remember".to_owned(), "yes".to_owned()),
            ("Submit".to_owned(), "Login".to_owned()),
        ]
    );
}

#[test]
fn the_submission_posts_the_number_the_language_and_the_code() {
    let form = submission_fields(100, 5, "int main(){}");
    assert_eq!(
        form,
        vec![
            ("problemid".to_owned(), "".to_owned()),
            ("category".to_owned(), "".to_owned()),
            ("codeupl".to_owned(), "".to_owned()),
            ("localid".to_owned(), "100".to_owned()),
            ("language".to_owned(), "5".to_owned()),
            ("code".to_owned(), "int main(){}".to_owned()),
        ]
    );
}

#[test]
fn submissions_keep_their_distance() {
    assert_eq!(pause(None, 5000), 0);
    assert_eq!(pause(Some(1000), 5000), 4000);
    assert_eq!(pause(Some(9000), 5000), 0);
}

#[test]
fn a_lapsed_session_is_re_established_once() {
    assert_eq!(after_attempt(false, Some(7)), Step::Done(7));
    assert_eq!(after_attempt(false, None), Step::SignInAgain);
    assert_eq!(after_attempt(true, None), Step::Lapsed);
}

#[test]
fn the_first_selected_form_is_the_one_read() {
    let first = vec![(Some("a".to_owned()), None)];
    let second = vec![(Some("b".to_owned()), Some("2".to_owned()))];
    assert_eq!(first_form(Some(vec![first.clone(), second])), Some(first));
    assert_eq!(first_form(Some(vec![])), None);
    assert_eq!(first_form(None), None);
}

#[test]
fn only_the_first_login_form_counts() {
    let page = r#"<html><body>
        <form id="mod_loginform"><input type="hidden" name="one" value="1"></form>
        <form id="mod_loginform"><input type="hidden" name="two" value="2"></form>
    </body></html>"#;
    assert_eq!(
        hidden_fields(page).unwrap(),
        vec![("one".to_owned(), "1".to_owned())]
    );
}
