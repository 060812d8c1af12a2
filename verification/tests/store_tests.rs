use env_match::commands::{parse_required, trim_bounds, trim_chars, EnvMatchCommands};
use env_match::config::{allowed_in_name, ConfigManager, EnvConfig, GlobalConfig, StoreWrite};
use env_match::error::EnvMatchError;
use env_match::string_map::StringMap;
use env_match::text::{chars_of, key_order, string_of, KeyOrder};

fn create_test_config_manager() -> ConfigManager {
    ConfigManager::with_base_dir(".envMatch".to_string())
}

fn create_test_commands() -> EnvMatchCommands {
    EnvMatchCommands::with_config_manager(create_test_config_manager())
}

#[test]
fn test_initialization() {
    let mut config_manager = create_test_config_manager();

    assert!(!config_manager.is_initialized());

    config_manager.initialize().unwrap();

    assert!(config_manager.is_initialized());

    // Should fail to initialize again
    assert!(matches!(
        config_manager.initialize(),
        Err(EnvMatchError::AlreadyInitialized)
    ));
}

#[test]
fn test_global_config() {
    let mut config_manager = create_test_config_manager();
    config_manager.initialize().unwrap();

    let config = config_manager.load_global_config().unwrap();
    assert_eq!(config.current_environment, "development");

    let new_config = GlobalConfig {
        current_environment: "production".to_string(),
    };
    config_manager.save_global_config(&new_config).unwrap();

    let loaded_config = config_manager.load_global_config().unwrap();
    assert_eq!(loaded_config.current_environment, "production");
}

#[test]
fn test_environment_management() {
    let mut config_manager = create_test_config_manager();
    config_manager.initialize().unwrap();

    let mut env_config = EnvConfig::default();
    env_config
        .variables
        .insert("TEST_VAR".to_string(), "test_value".to_string());

    config_manager
        .save_environment("test", &env_config)
        .unwrap();

    let loaded_env = config_manager.load_environment("test").unwrap();
    assert_eq!(
        loaded_env.variables.get("TEST_VAR"),
        Some(&"test_value".to_string())
    );

    let environments = config_manager.list_environments().unwrap();
    assert!(environments.contains(&"test".to_string()));
    assert!(environments.contains(&"development".to_string()));
}

#[test]
fn test_invalid_environment_name() {
    let mut config_manager = create_test_config_manager();
    config_manager.initialize().unwrap();

    let env_config = EnvConfig::default();
    let result = config_manager.save_environment("invalid name!", &env_config);

    assert!(matches!(
        result,
        Err(EnvMatchError::InvalidEnvironmentName { .. })
    ));
}

#[test]
fn test_not_initialized_error() {
    let config_manager = create_test_config_manager();

    let result = config_manager.load_global_config();
    assert!(matches!(result, Err(EnvMatchError::NotInitialized)));
}

#[test]
fn mod_test_init_command() {
    let mut commands = create_test_commands();

    commands.init_with_environment("development").unwrap();

    // Should fail to init again
    assert!(matches!(
        commands.init_with_environment("development"),
        Err(EnvMatchError::AlreadyInitialized)
    ));
}

#[test]
fn mod_test_set_and_get_variable() {
    let mut commands = create_test_commands();
    commands.init_with_environment("development").unwrap();

    commands
        .set_variable("TEST_KEY", "test_value", "development")
        .unwrap();
    let value = commands.get_variable("TEST_KEY", "development").unwrap();

    assert_eq!(value, "test_value");
}

#[test]
fn mod_test_unset_variable() {
    let mut commands = create_test_commands();
    commands.init_with_environment("development").unwrap();

    commands
        .set_variable("TEST_KEY", "test_value", "development")
        .unwrap();
    commands.unset_variable("TEST_KEY", "development").unwrap();

    let result = commands.get_variable("TEST_KEY", "development");
    assert!(matches!(
        result,
        Err(EnvMatchError::VariableNotFound { .. })
    ));
}

#[test]
fn mod_test_switch_environment() {
    let mut commands = create_test_commands();
    commands.init_with_environment("development").unwrap();

    commands.switch_environment("production").unwrap();
    let current = commands.show_current_environment().unwrap();

    assert_eq!(current, "production");
}

#[test]
fn mod_test_list_variables() {
    let mut commands = create_test_commands();
    commands.init_with_environment("development").unwrap();

    commands
        .set_variable("KEY1", "value1", "development")
        .unwrap();
    commands
        .set_variable("KEY2", "value2", "development")
        .unwrap();

    let variables = commands.list_variables(None).unwrap();

    assert_eq!(variables.len(), 2);
    assert!(variables.contains(&("KEY1".to_string(), "value1".to_string())));
    assert!(variables.contains(&("KEY2".to_string(), "value2".to_string())));
}

#[test]
fn mod_test_validate_environment() {
    let mut commands = create_test_commands();
    commands.init_with_environment("development").unwrap();

    commands
        .set_variable("REQUIRED_VAR", "value", "development")
        .unwrap();

    // Should pass validation
    commands.validate_environment(Some("REQUIRED_VAR")).unwrap();

    // Should fail validation for missing variable
    let result = commands.validate_environment(Some("MISSING_VAR"));
    assert!(matches!(
        result,
        Err(EnvMatchError::MissingRequiredVariables { .. })
    ));
}

#[test]
fn mod_test_list_environments() {
    let mut commands = create_test_commands();
    commands.init_with_environment("development").unwrap();

    commands
        .set_variable("TEST", "value", "production")
        .unwrap();

    let environments = commands.list_environments().unwrap();

    assert!(environments.contains(&"development".to_string()));
    assert!(environments.contains(&"production".to_string()));
}

#[test]
fn key_order_is_by_scalar_value() {
    assert_eq!(key_order("A", "BB"), KeyOrder::Before);
    assert_eq!(key_order("BB", "A"), KeyOrder::After);
    assert_eq!(key_order("KEY", "KEY"), KeyOrder::Same);
    assert_eq!(key_order("", ""), KeyOrder::Same);
    assert_eq!(key_order("", "a"), KeyOrder::Before);
    assert_eq!(key_order("ab", "abc"), KeyOrder::Before);
    assert_eq!(key_order("abc", "ab"), KeyOrder::After);
    assert_eq!(key_order("Z", "a"), KeyOrder::Before);
    assert_eq!(key_order("é", "z"), KeyOrder::After);
    assert_eq!(key_order("a_b", "a-b"), KeyOrder::After);
}

#[test]
fn key_order_agrees_with_string_comparison() {
    let samples = ["", "a", "A", "ab", "b", "B_1", "é", "zz", "development", "production"];
    for a in samples {
        for b in samples {
            let expected = if a < b {
                KeyOrder::Before
            } else if a == b {
                KeyOrder::Same
            } else {
                KeyOrder::After
            };
            assert_eq!(key_order(a, b), expected);
        }
    }
}

#[test]
fn chars_and_strings_round_trip() {
    let chars = chars_of("héllo");
    assert_eq!(chars, vec!['h', 'é', 'l', 'l', 'o']);
    assert_eq!(string_of(&chars, 0, 5), "héllo");
    assert_eq!(string_of(&chars, 1, 3), "él");
    assert_eq!(string_of(&chars, 2, 2), "");
    assert_eq!(chars_of(""), Vec::<char>::new());
}

#[test]
fn string_map_keeps_keys_sorted_and_unique() {
    let mut map: StringMap<String> = StringMap::new();
    assert!(map.is_empty());
    assert_eq!(map.insert("b".to_string(), "2".to_string()), None);
    assert_eq!(map.insert("a".to_string(), "1".to_string()), None);
    assert_eq!(map.insert("c".to_string(), "3".to_string()), None);
    assert_eq!(map.insert("b".to_string(), "22".to_string()), Some("2".to_string()));
    assert_eq!(map.len(), 3);
    assert!(!map.is_empty());
    assert_eq!(map.keys(), vec!["a".to_string(), "b".to_string(), "c".to_string()]);
    assert_eq!(map.get("b"), Some(&"22".to_string()));
    assert_eq!(map.get("d"), None);
    assert!(map.contains_key("a"));
    assert!(!map.contains_key("A"));
    assert_eq!(map.remove("a"), Some("1".to_string()));
    assert_eq!(map.remove("a"), None);
    assert_eq!(map.keys(), vec!["b".to_string(), "c".to_string()]);
    let copy = map.duplicate();
    assert_eq!(copy.keys(), map.keys());
    assert_eq!(copy.get("c"), Some(&"3".to_string()));
}

#[test]
fn name_rule_accepts_alphanumerics_underscore_and_hyphen() {
    let config_manager = create_test_config_manager();
    assert!(config_manager.validate_environment_name("development").is_ok());
    assert!(config_manager.validate_environment_name("prod_2-eu").is_ok());
    assert!(config_manager.validate_environment_name("").is_ok());
    assert!(config_manager.validate_environment_name("ünïcödé9").is_ok());
    for bad in ["invalid name!", "a/b", "a.b", " ", "x y", "tab\t"] {
        match config_manager.validate_environment_name(bad) {
            Err(EnvMatchError::InvalidEnvironmentName { name }) => assert_eq!(name, bad),
            other => panic!("{:?}", other),
        }
    }
    assert!(allowed_in_name('x', true));
    assert!(allowed_in_name('_', false));
    assert!(allowed_in_name('-', false));
    assert!(!allowed_in_name('!', false));
}

#[test]
fn paths_follow_the_layout_of_the_store() {
    let config_manager = ConfigManager::with_base_dir("/work/.envMatch".to_string());
    assert_eq!(config_manager.get_config_path(), "/work/.envMatch/config.yaml");
    assert_eq!(config_manager.get_environments_dir(), "/work/.envMatch/environments");
    assert_eq!(
        config_manager.get_env_path("production"),
        "/work/.envMatch/environments/production.yaml"
    );
}

#[test]
fn initialize_records_both_files() {
    let mut config_manager = create_test_config_manager();
    assert!(config_manager.list_environments().unwrap().is_empty());
    config_manager.initialize().unwrap();
    assert_eq!(config_manager.list_environments().unwrap(), vec!["development".to_string()]);
    let writes = config_manager.take_pending_writes();
    assert_eq!(writes.len(), 2);
    match &writes[0] {
        StoreWrite::GlobalConfig(config) => assert_eq!(config.current_environment, "development"),
        other => panic!("{:?}", other),
    }
    match &writes[1] {
        StoreWrite::Environment { name, config } => {
            assert_eq!(name, "development");
            assert!(config.variables.is_empty());
        }
        other => panic!("{:?}", other),
    }
    assert!(config_manager.take_pending_writes().is_empty());
}

#[test]
fn restore_fills_the_image_without_recording_writes() {
    let mut config_manager = create_test_config_manager();
    config_manager.restore_global_config(GlobalConfig {
        current_environment: "my env".to_string(),
    });
    let mut env_config = EnvConfig::default();
    env_config.variables.insert("K".to_string(), "v".to_string());
    config_manager.restore_environment("my env".to_string(), env_config);
    assert!(config_manager.is_initialized());
    assert!(config_manager.take_pending_writes().is_empty());
    // an environment that exists loads under a name that could not be created
    let loaded = config_manager.load_environment("my env").unwrap();
    assert_eq!(loaded.variables.get("K"), Some(&"v".to_string()));
    assert!(config_manager.take_pending_writes().is_empty());
    // but it cannot be saved under that name
    assert!(matches!(
        config_manager.save_environment("my env", &loaded),
        Err(EnvMatchError::InvalidEnvironmentName { .. })
    ));
}

#[test]
fn load_environment_creates_lazily() {
    let mut config_manager = create_test_config_manager();
    assert!(matches!(
        config_manager.load_environment("staging"),
        Err(EnvMatchError::NotInitialized)
    ));
    config_manager.initialize().unwrap();
    config_manager.take_pending_writes();
    let created = config_manager.load_environment("staging").unwrap();
    assert!(created.variables.is_empty());
    assert_eq!(
        config_manager.list_environments().unwrap(),
        vec!["development".to_string(), "staging".to_string()]
    );
    let writes = config_manager.take_pending_writes();
    assert_eq!(writes.len(), 1);
    assert!(matches!(&writes[0], StoreWrite::Environment { name, .. } if name == "staging"));
    // a second load finds it and writes nothing
    config_manager.load_environment("staging").unwrap();
    assert!(config_manager.take_pending_writes().is_empty());
    match config_manager.load_environment("no good") {
        Err(EnvMatchError::InvalidEnvironmentName { name }) => assert_eq!(name, "no good"),
        other => panic!("{:?}", other),
    }
    assert_eq!(config_manager.list_environments().unwrap().len(), 2);
}

#[test]
fn init_with_other_environment_creates_it_and_keeps_default_current() {
    let mut commands = create_test_commands();
    assert!(!commands.is_initialized());
    commands.init_with_environment("staging").unwrap();
    assert!(commands.is_initialized());
    assert_eq!(commands.show_current_environment().unwrap(), "development");
    assert_eq!(
        commands.list_environments().unwrap(),
        vec!["development".to_string(), "staging".to_string()]
    );
    assert_eq!(commands.take_pending_writes().len(), 3);
}

#[test]
fn init_with_invalid_environment_leaves_store_initialized() {
    let mut commands = create_test_commands();
    match commands.init_with_environment("bad name") {
        Err(EnvMatchError::InvalidEnvironmentName { name }) => assert_eq!(name, "bad name"),
        other => panic!("{:?}", other),
    }
    assert!(commands.is_initialized());
    assert_eq!(commands.list_environments().unwrap(), vec!["development".to_string()]);
}

#[test]
fn commands_need_an_initialized_store() {
    let mut commands = create_test_commands();
    assert!(matches!(
        commands.set_variable("VAR", "value", "development"),
        Err(EnvMatchError::NotInitialized)
    ));
    assert!(matches!(
        commands.get_variable("VAR", "development"),
        Err(EnvMatchError::NotInitialized)
    ));
    assert!(matches!(
        commands.unset_variable("VAR", "development"),
        Err(EnvMatchError::NotInitialized)
    ));
    assert!(matches!(
        commands.switch_environment("production"),
        Err(EnvMatchError::NotInitialized)
    ));
    assert!(matches!(commands.list_variables(None), Err(EnvMatchError::NotInitialized)));
    assert!(matches!(
        commands.show_current_environment(),
        Err(EnvMatchError::NotInitialized)
    ));
    assert!(matches!(
        commands.validate_environment(None),
        Err(EnvMatchError::NotInitialized)
    ));
    assert!(matches!(commands.list_environments(), Err(EnvMatchError::NotInitialized)));
    assert!(commands.take_pending_writes().is_empty());
}

#[test]
fn set_then_list_returns_the_pair_unchanged() {
    let mut commands = create_test_commands();
    commands.init_with_environment("development").unwrap();
    commands.set_variable("B", "two words ", "production").unwrap();
    commands.set_variable("A", "=1", "production").unwrap();
    commands.set_variable("B", "2", "production").unwrap();
    assert_eq!(
        commands.list_variables(Some("production")).unwrap(),
        vec![
            ("A".to_string(), "=1".to_string()),
            ("B".to_string(), "2".to_string())
        ]
    );
    assert_eq!(commands.get_variable("B", "production").unwrap(), "2");
    assert!(commands.list_variables(Some("development")).unwrap().is_empty());
}

#[test]
fn set_variable_in_new_environment_writes_it_twice() {
    let mut commands = create_test_commands();
    commands.init_with_environment("development").unwrap();
    commands.take_pending_writes();
    commands.set_variable("K", "v", "production").unwrap();
    let writes = commands.take_pending_writes();
    assert_eq!(writes.len(), 2);
    match &writes[0] {
        StoreWrite::Environment { name, config } => {
            assert_eq!(name, "production");
            assert!(config.variables.is_empty());
        }
        other => panic!("{:?}", other),
    }
    match &writes[1] {
        StoreWrite::Environment { name, config } => {
            assert_eq!(name, "production");
            assert_eq!(config.variables.get("K"), Some(&"v".to_string()));
        }
        other => panic!("{:?}", other),
    }
    match commands.set_variable("K", "v", "not valid") {
        Err(EnvMatchError::InvalidEnvironmentName { name }) => assert_eq!(name, "not valid"),
        other => panic!("{:?}", other),
    }
    assert!(commands.take_pending_writes().is_empty());
}

#[test]
fn unset_reports_the_missing_key() {
    let mut commands = create_test_commands();
    commands.init_with_environment("development").unwrap();
    match commands.unset_variable("NOPE", "development") {
        Err(EnvMatchError::VariableNotFound { key, env }) => {
            assert_eq!(key, "NOPE");
            assert_eq!(env, "development");
        }
        other => panic!("{:?}", other),
    }
    match commands.get_variable("NONEXISTENT", "development") {
        Err(e) => assert_eq!(
            e.message(),
            "Variable 'NONEXISTENT' not found in environment 'development'"
        ),
        other => panic!("{:?}", other),
    }
}

#[test]
fn switch_creates_the_environment_and_records_the_pointer() {
    let mut commands = create_test_commands();
    commands.init_with_environment("development").unwrap();
    commands.take_pending_writes();
    commands.switch_environment("production").unwrap();
    let writes = commands.take_pending_writes();
    assert_eq!(writes.len(), 2);
    assert!(matches!(&writes[0], StoreWrite::Environment { name, .. } if name == "production"));
    match &writes[1] {
        StoreWrite::GlobalConfig(config) => assert_eq!(config.current_environment, "production"),
        other => panic!("{:?}", other),
    }
    assert!(matches!(
        commands.switch_environment("pro duction"),
        Err(EnvMatchError::InvalidEnvironmentName { .. })
    ));
    assert_eq!(commands.show_current_environment().unwrap(), "production");
}

#[test]
fn validate_lists_what_is_missing_in_order() {
    let mut commands = create_test_commands();
    commands.init_with_environment("development").unwrap();
    commands.set_variable("DATABASE_URL", "postgres://localhost", "development").unwrap();
    commands.set_variable("API_KEY", "secret123", "development").unwrap();
    commands.validate_environment(Some("DATABASE_URL,API_KEY")).unwrap();
    commands.validate_environment(Some(" DATABASE_URL ,\tAPI_KEY\n")).unwrap();
    commands.validate_environment(None).unwrap();
    match commands.validate_environment(Some("Z, DATABASE_URL,MISSING_VAR ,Z,")) {
        Err(EnvMatchError::MissingRequiredVariables { env, variables }) => {
            assert_eq!(env, "development");
            assert_eq!(
                variables,
                vec![
                    "Z".to_string(),
                    "MISSING_VAR".to_string(),
                    "Z".to_string(),
                    "".to_string()
                ]
            );
        }
        other => panic!("{:?}", other),
    }
    // the empty list asks for the variable with the empty name
    match commands.validate_environment(Some("")) {
        Err(EnvMatchError::MissingRequiredVariables { variables, .. }) => {
            assert_eq!(variables, vec!["".to_string()]);
        }
        other => panic!("{:?}", other),
    }
}

#[test]
fn required_names_are_split_and_trimmed() {
    assert_eq!(parse_required("A,B"), vec!["A".to_string(), "B".to_string()]);
    assert_eq!(
        parse_required("  A b ,, C\u{a0}"),
        vec!["A b".to_string(), "".to_string(), "C".to_string()]
    );
    assert_eq!(parse_required(""), vec!["".to_string()]);
    assert_eq!(parse_required(","), vec!["".to_string(), "".to_string()]);
    assert_eq!(trim_chars(&chars_of("  x y \t")), "x y");
    assert_eq!(trim_chars(&chars_of(" \n ")), "");
    assert_eq!(trim_chars(&chars_of("")), "");
    assert_eq!(trim_chars(&chars_of("x")), "x");
    assert_eq!(trim_bounds(&vec![true, false, true, false, true, true]), (1, 4));
    assert_eq!(trim_bounds(&vec![true, true]), (2, 2));
    assert_eq!(trim_bounds(&vec![]), (0, 0));
    assert_eq!(trim_bounds(&vec![false]), (0, 1));
}

#[test]
fn every_error_has_its_message() {
    assert_eq!(
        EnvMatchError::NotInitialized.message(),
        "envMatch not initialized. Run 'envMatch init' first"
    );
    assert_eq!(
        EnvMatchError::AlreadyInitialized.message(),
        "envMatch already initialized in this directory"
    );
    assert_eq!(
        EnvMatchError::VariableNotFound { key: "K".to_string(), env: "e".to_string() }.message(),
        "Variable 'K' not found in environment 'e'"
    );
    assert_eq!(
        EnvMatchError::ConfigReadError { source: "denied".to_string() }.message(),
        "Failed to read config file: denied"
    );
    assert_eq!(
        EnvMatchError::YamlParseError { source: "line 1".to_string() }.message(),
        "Failed to parse YAML: line 1"
    );
    assert_eq!(
        EnvMatchError::MissingRequiredVariables {
            env: "development".to_string(),
            variables: vec!["A".to_string(), "say \"B\"".to_string()],
        }
        .message(),
        "Missing required variables in environment 'development': [\"A\", \"say \\\"B\\\"\"]"
    );
    assert_eq!(
        EnvMatchError::InvalidEnvironmentName { name: "a b".to_string() }.message(),
        "Invalid environment name: 'a b'. Environment names must be alphanumeric"
    );
    assert_eq!(
        EnvMatchError::MissingRequiredVariables { env: "e".to_string(), variables: vec![] }
            .message_with("<list>"),
        "Missing required variables in environment 'e': <list>"
    );
}
