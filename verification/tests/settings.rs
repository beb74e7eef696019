use atat::cli::parser::{check_repository_name, parse_args, Command};
use atat::config::{
    check_blank, config_from_value, config_object, parse_config, serialize_config,
    update_config, ConfigError, ConfigKey, ConfigMap, PROJECT_CONFIG_DIR, PROJECT_CONFIG_FILENAME,
};
use atat::remote::{
    classify_repository_status, listed_repositories, plan_remote_add, select_repository,
    with_repository, without_repository, AddPlan, RepositoryError,
};
use atat::whoami::{login_from_user_response, UserResponse};
use serde_json::Value;

fn config_with(repositories: Value) -> ConfigMap {
    let mut config = ConfigMap::new();
    config.insert(ConfigKey::Repositories, repositories);
    config
}

fn names(list: &[&str]) -> Value {
    Value::Array(list.iter().map(|name| Value::from(*name)).collect())
}

fn args(words: &[&str]) -> Vec<String> {
    words.iter().map(|word| word.to_string()).collect()
}

#[test]
fn push_is_a_command() {
    assert_eq!(parse_args(&args(&["atat", "push"])), Command::Push);
    assert_eq!(
        parse_args(&args(&["atat", "push", "now"])),
        Command::Unknown("push".to_string())
    );
}

#[test]
fn no_arguments_at_all_ask_for_help() {
    assert_eq!(parse_args(&[]), Command::Help);
}

#[test]
fn unknown_words_are_reported_together() {
    assert_eq!(
        parse_args(&args(&["atat", "foo", "bar", "baz"])),
        Command::Unknown("foo bar".to_string())
    );
    assert_eq!(
        parse_args(&args(&["atat", "remote", "list", "o/r"])),
        Command::Unknown("remote list".to_string())
    );
    assert_eq!(
        parse_args(&args(&["atat", "remote", "list"])),
        Command::Unknown("remote list".to_string())
    );
}

#[test]
fn a_repository_name_has_one_slash_in_the_middle() {
    assert!(check_repository_name("owner/repo"));
    assert!(check_repository_name("o/r"));
    assert!(check_repository_name("日本/語"));
    for name in ["", "/", "owner", "/repo", "owner/", "a/b/c", "a//b", "//"] {
        assert!(!check_repository_name(name), "{name:?}");
    }
}

#[test]
fn configuration_keys_have_their_names() {
    assert_eq!(ConfigKey::Repositories.as_str(), "repositories");
    assert_eq!(ConfigKey::all(), &[ConfigKey::Repositories]);
    assert_eq!(PROJECT_CONFIG_FILENAME, "config.json");
    assert_eq!(PROJECT_CONFIG_DIR, ".atat");
}

#[test]
fn blank_content_is_ascii_whitespace_only() {
    assert!(check_blank(b""));
    assert!(check_blank(b" \t\n\x0C\r"));
    assert!(!check_blank(b" \x0B "));
    assert!(!check_blank(b" {} "));
    assert!(!check_blank("\u{a0}".as_bytes()));
}

#[test]
fn content_that_is_no_json_is_refused_as_such() {
    let error = parse_config(b"{invalid json}").unwrap_err();
    assert!(matches!(error, ConfigError::InvalidJson(_)));
    assert_eq!(error.message(), "Failed to parse config JSON");
}

#[test]
fn json_that_is_no_object_is_refused_as_such() {
    for content in [&b"[\"owner/repo1\"]"[..], b"\"text\"", b"12", b"null", b"true"] {
        let error = parse_config(content).unwrap_err();
        assert!(matches!(error, ConfigError::NotAnObject));
        assert_eq!(
            error.message(),
            "Config must be either an array of strings or an object"
        );
    }
}

#[test]
fn a_null_member_is_kept_as_null() {
    let config = parse_config(b"{\"repositories\": null, \"other\": 1}").unwrap();
    assert_eq!(config.get(&ConfigKey::Repositories), Some(&Value::Null));
}

#[test]
fn a_parsed_value_gives_its_known_members() {
    let value: Value = serde_json::from_str("{\"repositories\": [\"a/b\"], \"x\": 1}").unwrap();
    let config = config_from_value(&value).unwrap();
    assert_eq!(config.get(&ConfigKey::Repositories), Some(&names(&["a/b"])));
    assert!(matches!(
        config_from_value(&Value::from(3)),
        Err(ConfigError::NotAnObject)
    ));
}

#[test]
fn insert_returns_what_stood_there_before() {
    let mut config = ConfigMap::new();
    assert!(config.is_empty());
    assert!(!config.contains_key(&ConfigKey::Repositories));
    assert_eq!(config.get(&ConfigKey::Repositories), None);
    assert_eq!(config.insert(ConfigKey::Repositories, Value::from(1)), None);
    assert_eq!(
        config.insert(ConfigKey::Repositories, Value::from(2)),
        Some(Value::from(1))
    );
    assert_eq!(config.get(&ConfigKey::Repositories), Some(&Value::from(2)));
    assert!(!config.is_empty());
}

#[test]
fn configurations_are_equal_when_their_values_are() {
    assert_eq!(ConfigMap::new(), ConfigMap::new());
    assert_eq!(config_with(names(&["a/b"])), config_with(names(&["a/b"])));
    assert_ne!(config_with(names(&["a/b"])), config_with(names(&["a/c"])));
    assert_ne!(config_with(names(&["a/b"])), ConfigMap::new());
    assert_ne!(ConfigMap::new(), config_with(names(&["a/b"])));
    let config = config_with(names(&["a/b"]));
    assert_eq!(config.clone(), config);
}

#[test]
fn updates_win_over_the_base() {
    let base = config_with(names(&["a/b"]));
    let updates = config_with(names(&["c/d"]));
    assert_eq!(update_config(&base, &updates), updates);
    assert_eq!(update_config(&base, &ConfigMap::new()), base);
    assert_eq!(update_config(&ConfigMap::new(), &updates), updates);
}

#[test]
fn only_strings_of_the_list_are_shown() {
    let list = Value::Array(vec![
        Value::from("a/b"),
        Value::from(3),
        Value::Null,
        Value::from("c/d"),
    ]);
    assert_eq!(
        listed_repositories(&config_with(list)),
        vec!["a/b".to_string(), "c/d".to_string()]
    );
    assert_eq!(listed_repositories(&ConfigMap::new()), Vec::<String>::new());
    assert_eq!(
        listed_repositories(&config_with(Value::from("a/b"))),
        Vec::<String>::new()
    );
}

#[test]
fn adding_is_planned_from_the_list() {
    assert_eq!(plan_remote_add(&ConfigMap::new(), "a/b"), AddPlan::CheckThenAdd);
    assert_eq!(
        plan_remote_add(&config_with(names(&[])), "a/b"),
        AddPlan::CheckThenAdd
    );
    assert_eq!(
        plan_remote_add(&config_with(names(&["c/d"])), "a/b"),
        AddPlan::CheckThenAdd
    );
    assert_eq!(
        plan_remote_add(&config_with(names(&["c/d", "a/b"])), "a/b"),
        AddPlan::AlreadyListed
    );
    assert_eq!(
        plan_remote_add(&config_with(Value::from("a/b")), "a/b"),
        AddPlan::NotAnArray
    );
}

#[test]
fn a_repository_is_added_at_the_end_of_the_list() {
    assert_eq!(
        with_repository(&ConfigMap::new(), "a/b"),
        config_with(names(&["a/b"]))
    );
    assert_eq!(
        with_repository(&config_with(names(&["c/d"])), "a/b"),
        config_with(names(&["c/d", "a/b"]))
    );
    assert_eq!(
        with_repository(&config_with(names(&["a/b"])), "a/b"),
        config_with(names(&["a/b"]))
    );
    assert_eq!(
        with_repository(&config_with(Value::from(1)), "a/b"),
        config_with(Value::from(1))
    );
}

#[test]
fn a_repository_is_removed_wherever_it_stands() {
    let list = Value::Array(vec![
        Value::from("a/b"),
        Value::from(3),
        Value::from("c/d"),
        Value::from("a/b"),
    ]);
    assert_eq!(
        without_repository(&config_with(list), "a/b"),
        config_with(Value::Array(vec![Value::from(3), Value::from("c/d")]))
    );
    assert_eq!(
        without_repository(&config_with(names(&["c/d"])), "a/b"),
        config_with(names(&["c/d"]))
    );
}

#[test]
fn removing_the_last_repository_empties_the_configuration() {
    assert_eq!(
        without_repository(&config_with(names(&["a/b"])), "a/b"),
        ConfigMap::new()
    );
    assert_eq!(
        without_repository(&config_with(names(&[])), "a/b"),
        ConfigMap::new()
    );
}

#[test]
fn removing_leaves_what_is_no_list_alone() {
    assert_eq!(
        without_repository(&config_with(Value::from("a/b")), "a/b"),
        config_with(Value::from("a/b"))
    );
    assert_eq!(without_repository(&ConfigMap::new(), "a/b"), ConfigMap::new());
}

#[test]
fn a_push_goes_to_the_first_repository() {
    assert_eq!(
        select_repository(&config_with(names(&["a/b", "c/d"]))),
        Ok("a/b".to_string())
    );
    assert_eq!(
        select_repository(&ConfigMap::new()),
        Err(RepositoryError::NoneConfigured)
    );
    assert_eq!(
        select_repository(&config_with(names(&[]))),
        Err(RepositoryError::NoneConfigured)
    );
    assert_eq!(
        select_repository(&config_with(Value::from("a/b"))),
        Err(RepositoryError::NoneConfigured)
    );
    assert_eq!(
        select_repository(&config_with(Value::Array(vec![Value::from(1), Value::from("a/b")]))),
        Err(RepositoryError::Invalid)
    );
}

#[test]
fn repository_errors_tell_the_user_what_is_wrong() {
    assert_eq!(
        RepositoryError::NoneConfigured.message(),
        "No repository configured"
    );
    assert_eq!(
        RepositoryError::Invalid.message(),
        "Invalid repository configuration"
    );
}

#[test]
fn a_status_says_whether_the_repository_exists() {
    assert_eq!(classify_repository_status(200), Some(true));
    assert_eq!(classify_repository_status(404), Some(false));
    assert_eq!(classify_repository_status(403), Some(false));
    assert_eq!(classify_repository_status(201), None);
    assert_eq!(classify_repository_status(401), None);
    assert_eq!(classify_repository_status(500), None);
}

#[test]
fn the_login_is_taken_from_a_decoded_answer() {
    let user = UserResponse {
        login: "octocat".to_string(),
        id: 1,
    };
    assert_eq!(login_from_user_response(Ok(user)), Ok("octocat".to_string()));
}

#[test]
fn a_failed_decoding_is_reported_with_its_reason() {
    assert_eq!(
        login_from_user_response(Err("missing field `login` at line 1 column 8".to_string())),
        Err("Failed to parse user response: missing field `login` at line 1 column 8".to_string())
    );
}

#[test]
fn a_configuration_is_saved_under_the_names_of_its_keys() {
    assert_eq!(config_object(&ConfigMap::new()), serde_json::Map::new());
    let mut expected = serde_json::Map::new();
    expected.insert("repositories".to_string(), names(&["a/b"]));
    assert_eq!(config_object(&config_with(names(&["a/b"]))), expected);
}

#[test]
fn a_configuration_is_written_as_pretty_json() {
    assert_eq!(serialize_config(&ConfigMap::new()).unwrap(), "{}");
    assert_eq!(
        serialize_config(&config_with(names(&["a/b", "c/d"]))).unwrap(),
        "{\n  \"repositories\": [\n    \"a/b\",\n    \"c/d\"\n  ]\n}"
    );
}

#[test]
fn a_written_configuration_reads_back() {
    let config = config_with(names(&["a/b", "c/d"]));
    let written = serialize_config(&config).unwrap();
    assert_eq!(parse_config(written.as_bytes()).unwrap(), config);
}
