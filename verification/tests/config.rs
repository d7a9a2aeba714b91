use algojudge_external_runner::config::{
    list, number_in, secret, tags, trailing_slash, var, Config, ConfigError, External,
    DEFAULT_JUDGE, SERVER_LEASE_CEILING_SECONDS,
};

fn base() -> Config {
    Config {
        server_base_url: "http://server:8080/api/v1".into(),
        runner_name: "test".into(),
        problem_types: vec![],
        tags: vec![],
        key_path: "/tmp/identity.key".into(),
        cache_path: "/tmp/cache".into(),
        lease_seconds: 1200,
        poll_wait: 0,
        claim_poll_min: 1,
        claim_poll_max: 30,
        external: External {
            judge: DEFAULT_JUDGE.into(),
            base_url: "https://onlinejudge.org/".into(),
            api_base_url: "https://uhunt.onlinejudge.org/".into(),
            username: "robot".into(),
            password: "secret".into(),
            user_id: None,
            poll_min: 20,
            poll_max: 60,
            poll_escalate_after: 120,
            submit_min_interval: 5,
            pending_timeout: 900,
            max_pending: 20,
            long_poll_enabled: true,
        },
    }
}

fn env(pairs: &[(&str, &str)]) -> Vec<(String, String)> {
    pairs
        .iter()
        .map(|(k, v)| ((*k).to_owned(), (*v).to_owned()))
        .collect()
}

fn refusal(config: &Config) -> String {
    config.refuse_what_cannot_work().unwrap_err().message()
}

/// The minimum an environment must carry to be read at all.
fn required() -> Vec<(&'static str, &'static str)> {
    vec![
        ("AJ_Server__BaseUrl", "http://server:8080/api/v1"),
        ("AJ_External__Username", "robot"),
        ("AJ_External__Password", "secret"),
    ]
}

#[test]
fn tags_are_lowercased_trimmed_and_emptied_of_blanks() {
    assert_eq!(tags(&env(&[]), "Runner__Tags"), Vec::<String>::new());
    assert_eq!(
        tags(&env(&[("AJ_Runner__Tags", "  Lab-A , UVA ")]), "Runner__Tags"),
        vec!["lab-a", "uva"]
    );
    assert_eq!(
        tags(&env(&[("AJ_Runner__Tags", "lab-a,,lab-b")]), "Runner__Tags"),
        vec!["lab-a", "lab-b"]
    );
}

#[test]
fn a_password_is_not_trimmed_and_a_url_is() {
    let vars = env(&[
        ("AJ_External__Password", " hunter2 "),
        ("AJ_Server__BaseUrl", "  http://server:8080/api/v1  "),
    ]);
    assert_eq!(secret(&vars, "External__Password").unwrap(), " hunter2 ");
    assert_eq!(var(&vars, "Server__BaseUrl").unwrap(), "http://server:8080/api/v1");

    let blank = env(&[("AJ_External__Password", "   ")]);
    assert!(secret(&blank, "External__Password").is_none());
}

#[test]
fn a_poll_floor_below_twenty_is_refused() {
    let mut config = base();
    config.external.poll_min = 5;
    let refused = refusal(&config);
    assert!(refused.contains("PollMinSeconds"), "{refused}");
    assert!(refused.contains("not lowered"), "{refused}");
}

#[test]
fn a_lease_above_the_servers_ceiling_is_refused() {
    let mut config = base();
    config.lease_seconds = 7200;
    config.external.pending_timeout = 3650;
    let refused = refusal(&config);
    assert!(refused.contains("RequestSeconds"), "{refused}");
    assert!(refused.contains("3600"), "{refused}");

    config.lease_seconds = SERVER_LEASE_CEILING_SECONDS;
    config.external.pending_timeout = 900;
    config.external.poll_max = 900;
    assert!(
        config.refuse_what_cannot_work().is_ok(),
        "the ceiling the Server grants is a lease this Runner may ask for"
    );
}

#[test]
fn a_lease_that_does_not_outlast_the_timeout_is_refused() {
    let mut config = base();
    config.lease_seconds = 600;
    let refused = refusal(&config);
    assert!(refused.contains("submit the same solution again"), "{refused}");
}

#[test]
fn a_poll_interval_that_does_not_fit_inside_the_lease_is_refused() {
    let mut config = base();
    config.external.poll_max = 300;
    assert!(
        config.refuse_what_cannot_work().is_ok(),
        "four times three hundred fits inside twenty minutes"
    );

    config.external.poll_max = 600;
    let refused = refusal(&config);
    assert!(refused.contains("PollMaxSeconds"), "{refused}");
    assert!(refused.contains("submit the same solution again"), "{refused}");
}

#[test]
fn the_defaults_are_accepted() {
    assert!(base().refuse_what_cannot_work().is_ok(), "the defaults must be usable");
}

#[test]
fn a_malformed_number_names_the_key_and_the_value() {
    let refused = number_in("3O", "External__PollMinSeconds").unwrap_err().message();
    assert!(refused.contains("AJ_External__PollMinSeconds"), "{refused}");
    assert!(refused.contains("3O"), "{refused}");
}

#[test]
fn a_base_url_is_given_its_trailing_slash() {
    assert_eq!(trailing_slash("https://x.test"), "https://x.test/");
    assert_eq!(trailing_slash("https://x.test/"), "https://x.test/");
}

#[test]
fn no_problem_types_configured_is_empty_rather_than_a_guess() {
    assert!(list(&env(&[]), "Runner__ProblemTypes").is_empty());
}

#[test]
fn the_defaults_are_what_an_environment_that_names_nothing_else_gets() {
    let config = Config::from_variables(&env(&required())).unwrap();
    assert_eq!(config.server_base_url, "http://server:8080/api/v1");
    assert_eq!(config.lease_seconds, 1200);
    assert_eq!(config.external.judge, "uva");
    assert_eq!(config.external.base_url, "https://onlinejudge.org/");
    assert_eq!(config.external.api_base_url, "https://uhunt.onlinejudge.org/");
    assert_eq!(config.external.poll_min, 20);
    assert_eq!(config.external.poll_max, 60);
    assert_eq!(config.external.pending_timeout, 900);
    assert!(config.problem_types.is_empty());
    assert!(config.tags.is_empty());
    assert_eq!(config.external.user_id, None);
}

#[test]
fn a_server_address_without_the_api_prefix_is_refused() {
    let mut vars = required();
    vars[0] = ("AJ_Server__BaseUrl", "http://server:8080");
    let refused = Config::from_variables(&env(&vars)).unwrap_err();
    assert!(matches!(refused, ConfigError::NoApiPrefix(_)), "{:?}", refused);
    assert!(refused.message().contains("/api/v1"), "{}", refused.message());
}

#[test]
fn a_missing_credential_is_refused_by_name() {
    let vars = env(&required()[..2]);
    let refused = Config::from_variables(&vars).unwrap_err().message();
    assert!(refused.contains("AJ_External__Password"), "{refused}");
}

#[test]
fn a_switch_that_is_neither_word_is_refused() {
    let mut vars = required();
    vars.push(("AJ_External__LongPollEnabled", "maybe"));
    let refused = Config::from_variables(&env(&vars)).unwrap_err();
    assert!(matches!(refused, ConfigError::NotAFlag { .. }), "{:?}", refused);
    assert!(refused.message().contains("maybe"), "{}", refused.message());
}

#[test]
fn a_switch_reads_true_or_false_and_nothing_else() {
    for (word, expected) in [("TRUE", true), ("true", true), (" True ", true), ("false", false), ("FALSE", false)] {
        let mut vars = required();
        vars.push(("AJ_External__LongPollEnabled", word));
        let config = Config::from_variables(&env(&vars)).unwrap();
        assert_eq!(config.external.long_poll_enabled, expected, "{word}");
    }
    for word in ["1", "yes", "on", "0", "no", "off"] {
        let mut vars = required();
        vars.push(("AJ_External__LongPollEnabled", word));
        let refused = Config::from_variables(&env(&vars)).unwrap_err();
        assert!(matches!(refused, ConfigError::NotAFlag { .. }), "{word}: {:?}", refused);
    }
}

#[test]
fn a_switch_nobody_set_is_off_and_the_ceiling_of_work_is_two_hundred() {
    let config = Config::from_variables(&env(&required())).unwrap();
    assert!(!config.external.long_poll_enabled);
    assert_eq!(config.external.max_pending, 200);
}

#[test]
fn the_claim_pacing_has_its_defaults_and_its_own_keys() {
    let config = Config::from_variables(&env(&required())).unwrap();
    assert_eq!(config.poll_wait, 25);
    assert_eq!(config.claim_poll_min, 1);
    assert_eq!(config.claim_poll_max, 30);

    let mut vars = required();
    vars.push(("AJ_Poll__WaitSeconds", "0"));
    vars.push(("AJ_Poll__MinSeconds", "2"));
    vars.push(("AJ_Poll__MaxSeconds", "40"));
    let config = Config::from_variables(&env(&vars)).unwrap();
    assert_eq!((config.poll_wait, config.claim_poll_min, config.claim_poll_max), (0, 2, 40));
}

#[test]
fn the_judges_interval_and_the_claim_wait_must_fit_four_times_inside_the_lease() {
    let mut vars = required();
    vars.push(("AJ_External__PollMaxSeconds", "275"));
    assert!(Config::from_variables(&env(&vars)).is_ok(), "275 plus 25, four times, is 1200");

    let mut vars = required();
    vars.push(("AJ_External__PollMaxSeconds", "276"));
    let refused = Config::from_variables(&env(&vars)).unwrap_err();
    assert_eq!(
        refused,
        ConfigError::PollOutlastsLease { poll_max: 276, poll_wait: 25, lease: 1200 }
    );
    let message = refused.message();
    assert!(message.contains("276"), "{message}");
    assert!(message.contains("AJ_Poll__WaitSeconds of 25"), "{message}");
    assert!(message.contains("submit the same solution again"), "{message}");
}

#[test]
fn a_claim_wait_above_what_a_server_holds_is_refused() {
    let mut vars = required();
    vars.push(("AJ_Poll__WaitSeconds", "301"));
    vars.push(("AJ_Lease__RequestSeconds", "3600"));
    let refused = Config::from_variables(&env(&vars)).unwrap_err();
    assert_eq!(refused, ConfigError::WaitAboveCeiling(301));
    assert!(refused.message().contains("300"), "{}", refused.message());

    let mut vars = required();
    vars.push(("AJ_Poll__WaitSeconds", "300"));
    vars.push(("AJ_Lease__RequestSeconds", "3600"));
    assert!(Config::from_variables(&env(&vars)).is_ok());
}

#[test]
fn a_lease_too_large_for_its_field_is_refused_and_not_cut_down() {
    let mut vars = required();
    vars.push(("AJ_Lease__RequestSeconds", "4294968496"));
    let refused = Config::from_variables(&env(&vars)).unwrap_err();
    assert_eq!(refused, ConfigError::LeaseAboveCeiling(4294968496));
    assert!(refused.message().contains("4294968496"), "{}", refused.message());
}

#[test]
fn no_room_for_a_single_submission_is_refused() {
    let mut config = base();
    config.external.max_pending = 0;
    assert!(matches!(
        config.refuse_what_cannot_work(),
        Err(ConfigError::NoPending)
    ));
}

#[test]
fn the_slowest_poll_may_not_be_faster_than_the_fastest() {
    let mut config = base();
    config.external.poll_min = 90;
    config.external.poll_max = 60;
    assert!(matches!(
        config.refuse_what_cannot_work(),
        Err(ConfigError::PollOrder { max: 60, min: 90 })
    ));
}
