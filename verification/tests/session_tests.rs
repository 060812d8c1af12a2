use env_match::commands::EnvMatchCommands;
use env_match::config::{ConfigManager, GlobalConfig};
use env_match::error::EnvMatchError;
use env_match::tui::app::{position_of, App, AppState, Variable};
use env_match::tui::event::{cycle_events, Event, KeyCode, Polled};

/// Environments `development` and `production`, `development` current and
/// holding `A=1`.
fn two_environments() -> App {
    let mut commands =
        EnvMatchCommands::with_config_manager(ConfigManager::with_base_dir(".envMatch".to_string()));
    commands.init_with_environment("production").unwrap();
    commands.set_variable("A", "1", "development").unwrap();
    commands.take_pending_writes();
    App::new(commands).unwrap()
}

fn pairs(variables: &Vec<Variable>) -> Vec<(String, String)> {
    variables.iter().map(|v| (v.key.clone(), v.value.clone())).collect()
}

fn pair(key: &str, value: &str) -> (String, String) {
    (key.to_string(), value.to_string())
}

fn press(app: &mut App, keys: &[KeyCode]) {
    for key in keys {
        app.handle_key(*key).unwrap();
    }
}

#[test]
fn session_starts_on_the_current_environment() {
    let app = two_environments();
    assert_eq!(app.state, AppState::EnvironmentList);
    assert_eq!(app.current_environment, "development");
    assert_eq!(app.environments, vec!["development".to_string(), "production".to_string()]);
    assert_eq!(pairs(&app.variables), vec![pair("A", "1")]);
    assert_eq!(app.selected_env_index, 0);
    assert_eq!(app.selected_var_index, 0);
    assert_eq!(app.input_buffer, "");
    assert_eq!(app.input_key, "");
    assert!(!app.should_quit);
    assert_eq!(app.status_message, "");
    assert_eq!(app.error_message, "");
    assert!(!app.show_help);
    assert_eq!(AppState::default(), AppState::EnvironmentList);
}

#[test]
fn session_cursor_starts_on_the_current_environment() {
    let mut commands =
        EnvMatchCommands::with_config_manager(ConfigManager::with_base_dir(".envMatch".to_string()));
    commands.init_with_environment("alpha").unwrap();
    commands.switch_environment("production").unwrap();
    let app = App::new(commands).unwrap();
    assert_eq!(
        app.environments,
        vec!["alpha".to_string(), "development".to_string(), "production".to_string()]
    );
    assert_eq!(app.selected_env_index, 2);
    let names = vec!["a".to_string(), "b".to_string(), "b".to_string()];
    assert_eq!(position_of(&names, &"b".to_string()), 1);
    assert_eq!(position_of(&names, &"c".to_string()), 0);
    assert_eq!(position_of(&Vec::new(), &"c".to_string()), 0);
}

#[test]
fn session_needs_an_initialized_store() {
    let commands =
        EnvMatchCommands::with_config_manager(ConfigManager::with_base_dir(".envMatch".to_string()));
    assert!(matches!(App::new(commands), Err(EnvMatchError::NotInitialized)));
}

#[test]
fn session_refuses_a_current_environment_it_cannot_load() {
    let mut manager = ConfigManager::with_base_dir(".envMatch".to_string());
    manager.restore_global_config(GlobalConfig { current_environment: "not there!".to_string() });
    let commands = EnvMatchCommands::with_config_manager(manager);
    match App::new(commands) {
        Err(EnvMatchError::InvalidEnvironmentName { name }) => assert_eq!(name, "not there!"),
        other => panic!("{:?}", other.map(|_| ())),
    }
}

#[test]
fn session_creates_a_current_environment_that_is_missing() {
    let mut manager = ConfigManager::with_base_dir(".envMatch".to_string());
    manager.restore_global_config(GlobalConfig { current_environment: "fresh".to_string() });
    let mut app = App::new(EnvMatchCommands::with_config_manager(manager)).unwrap();
    // at startup the list is read before the variables are loaded
    assert!(app.environments.is_empty());
    assert_eq!(app.selected_env_index, 0);
    assert!(app.variables.is_empty());
    assert_eq!(app.commands.take_pending_writes().len(), 1);
    // no environment under the cursor: confirm switches nothing
    press(&mut app, &[KeyCode::Down, KeyCode::Up, KeyCode::Enter]);
    assert_eq!(app.state, AppState::VariableList);
    assert_eq!(app.selected_env_index, 0);
    assert_eq!(app.status_message, "");
    assert!(app.commands.take_pending_writes().is_empty());
}

#[test]
fn switching_reads_the_list_of_environments_anew() {
    let mut manager = ConfigManager::with_base_dir(".envMatch".to_string());
    manager.restore_global_config(GlobalConfig { current_environment: "staging".to_string() });
    manager.restore_environment("development".to_string(), Default::default());
    let mut app = App::new(EnvMatchCommands::with_config_manager(manager)).unwrap();
    assert_eq!(app.current_environment, "staging");
    assert_eq!(app.environments, vec!["development".to_string()]);
    assert_eq!(app.selected_env_index, 0);
    // the switch shows what the store holds by now, the cursor on the new current one
    press(&mut app, &[KeyCode::Enter]);
    assert_eq!(app.current_environment, "development");
    assert_eq!(app.environments, vec!["development".to_string(), "staging".to_string()]);
    assert_eq!(app.selected_env_index, 0);
    press(&mut app, &[KeyCode::Tab, KeyCode::Down, KeyCode::Enter]);
    assert_eq!(app.current_environment, "staging");
    assert_eq!(app.selected_env_index, 1);
    assert_eq!(app.status_message, "Switched to environment: staging");
}

#[test]
fn switching_moves_the_cursor_with_the_environment() {
    let mut app = two_environments();
    // an environment that sorts before the others appears after startup
    app.commands.set_variable("X", "1", "alpha").unwrap();
    assert_eq!(app.environments, vec!["development".to_string(), "production".to_string()]);
    press(&mut app, &[KeyCode::Down, KeyCode::Enter]);
    assert_eq!(app.current_environment, "production");
    assert_eq!(
        app.environments,
        vec!["alpha".to_string(), "development".to_string(), "production".to_string()]
    );
    assert_eq!(app.selected_env_index, 2);
    // moving the cursor or changing the list in focus reads nothing anew
    app.commands.set_variable("X", "1", "beta").unwrap();
    press(&mut app, &[KeyCode::Tab, KeyCode::Up, KeyCode::Tab, KeyCode::F(5), KeyCode::Tab]);
    assert_eq!(app.environments.len(), 3);
    assert_eq!(app.selected_env_index, 1);
}

#[test]
fn scenario_add_variable() {
    let mut app = two_environments();
    press(&mut app, &[KeyCode::Tab]);
    assert_eq!(app.state, AppState::VariableList);
    press(
        &mut app,
        &[
            KeyCode::Char('a'),
            KeyCode::Char('B'),
            KeyCode::Char('B'),
            KeyCode::Enter,
            KeyCode::Char('2'),
            KeyCode::Enter,
        ],
    );
    assert_eq!(pairs(&app.variables), vec![pair("A", "1"), pair("BB", "2")]);
    assert_eq!(app.state, AppState::VariableList);
    assert_eq!(app.status_message, "Added variable: BB=2");
    assert_eq!(app.error_message, "");
    assert_eq!(app.input_key, "");
    assert_eq!(app.input_buffer, "");
    assert_eq!(app.commands.get_variable("BB", "development").unwrap(), "2");
    assert_eq!(app.commands.take_pending_writes().len(), 1);
}

#[test]
fn scenario_decline_delete() {
    let mut app = two_environments();
    press(&mut app, &[KeyCode::Tab]);
    assert_eq!(app.variables[app.selected_var_index].key, "A");
    press(&mut app, &[KeyCode::Char('d')]);
    assert_eq!(app.state, AppState::ConfirmDelete);
    press(&mut app, &[KeyCode::Char('n')]);
    assert_eq!(app.state, AppState::VariableList);
    assert_eq!(pairs(&app.variables), vec![pair("A", "1")]);
    assert_eq!(app.commands.get_variable("A", "development").unwrap(), "1");
    assert!(app.commands.take_pending_writes().is_empty());
    assert_eq!(app.status_message, "");
    for key in [KeyCode::Char('N'), KeyCode::Esc] {
        press(&mut app, &[KeyCode::Delete]);
        assert_eq!(app.state, AppState::ConfirmDelete);
        press(&mut app, &[KeyCode::Char('x'), KeyCode::Enter]);
        assert_eq!(app.state, AppState::ConfirmDelete);
        press(&mut app, &[key]);
        assert_eq!(app.state, AppState::VariableList);
        assert_eq!(app.variables.len(), 1);
    }
}

#[test]
fn scenario_switch_environment() {
    let mut app = two_environments();
    assert_eq!(app.selected_env_index, 0);
    press(&mut app, &[KeyCode::Down, KeyCode::Enter]);
    assert_eq!(app.current_environment, "production");
    assert_eq!(app.commands.show_current_environment().unwrap(), "production");
    assert!(app.variables.is_empty());
    assert_eq!(app.state, AppState::VariableList);
    assert_eq!(app.status_message, "Switched to environment: production");
    assert_eq!(app.selected_var_index, 0);
    assert_eq!(app.selected_env_index, 1);
    // and back, with vi keys
    press(&mut app, &[KeyCode::Tab, KeyCode::Char('k'), KeyCode::Enter]);
    assert_eq!(app.current_environment, "development");
    assert_eq!(pairs(&app.variables), vec![pair("A", "1")]);
    assert_eq!(app.status_message, "Switched to environment: development");
}

#[test]
fn cursors_stay_inside_their_lists() {
    let mut app = two_environments();
    let moves = [
        KeyCode::Up,
        KeyCode::Char('k'),
        KeyCode::Down,
        KeyCode::Down,
        KeyCode::Char('j'),
        KeyCode::Down,
        KeyCode::Up,
    ];
    let expected_env = [0, 0, 1, 1, 1, 1, 0];
    for (key, expected) in moves.iter().zip(expected_env) {
        press(&mut app, &[*key]);
        assert_eq!(app.selected_env_index, expected);
        assert_eq!(app.selected_var_index, 0);
    }
    press(&mut app, &[KeyCode::Tab]);
    for key in ["C", "B"] {
        app.commands.set_variable(key, "x", "development").unwrap();
    }
    press(&mut app, &[KeyCode::F(5)]);
    assert_eq!(pairs(&app.variables), vec![pair("A", "1"), pair("B", "x"), pair("C", "x")]);
    let expected_var = [0, 0, 1, 2, 2, 2, 1];
    for (key, expected) in moves.iter().zip(expected_var) {
        press(&mut app, &[*key]);
        assert_eq!(app.selected_var_index, expected);
        assert_eq!(app.selected_env_index, 0);
        assert_eq!(app.state, AppState::VariableList);
    }
}

#[test]
fn quit_help_and_tab_in_both_lists() {
    let mut app = two_environments();
    press(&mut app, &[KeyCode::Char('h')]);
    assert!(app.show_help);
    press(&mut app, &[KeyCode::F(1)]);
    assert!(!app.show_help);
    press(&mut app, &[KeyCode::F(2), KeyCode::Other, KeyCode::Char('x'), KeyCode::Esc]);
    assert_eq!(app.state, AppState::EnvironmentList);
    assert!(!app.should_quit);
    press(&mut app, &[KeyCode::Tab]);
    assert_eq!(app.state, AppState::VariableList);
    press(&mut app, &[KeyCode::F(1)]);
    assert!(app.show_help);
    press(&mut app, &[KeyCode::Char('h')]);
    assert!(!app.show_help);
    press(&mut app, &[KeyCode::Tab]);
    assert_eq!(app.state, AppState::EnvironmentList);
    press(&mut app, &[KeyCode::Char('q')]);
    assert!(app.should_quit);
    let mut other = two_environments();
    press(&mut other, &[KeyCode::Tab, KeyCode::Char('q')]);
    assert!(other.should_quit);
    assert_eq!(other.state, AppState::VariableList);
}

#[test]
fn add_needs_a_key_and_a_value() {
    let mut app = two_environments();
    press(&mut app, &[KeyCode::Tab, KeyCode::Char('a')]);
    assert_eq!(app.state, AppState::AddVariable);
    // a confirm with nothing typed captures nothing
    press(&mut app, &[KeyCode::Enter]);
    assert_eq!(app.state, AppState::AddVariable);
    assert_eq!(app.input_key, "");
    assert_eq!(app.error_message, "");
    press(&mut app, &[KeyCode::Char('K'), KeyCode::Char('x'), KeyCode::Backspace, KeyCode::Enter]);
    assert_eq!(app.input_key, "K");
    assert_eq!(app.input_buffer, "");
    // a confirm without a value is an error and writes nothing
    press(&mut app, &[KeyCode::Backspace, KeyCode::Enter]);
    assert_eq!(app.state, AppState::AddVariable);
    assert_eq!(app.error_message, "Both key and value are required");
    assert_eq!(app.input_key, "K");
    assert_eq!(pairs(&app.variables), vec![pair("A", "1")]);
    assert!(app.commands.take_pending_writes().is_empty());
    press(&mut app, &[KeyCode::Char('q'), KeyCode::Tab, KeyCode::Enter]);
    assert_eq!(pairs(&app.variables), vec![pair("A", "1"), pair("K", "q")]);
    assert_eq!(app.error_message, "");
    assert!(!app.should_quit);
}

#[test]
fn escape_leaves_a_dialog_with_empty_buffers() {
    let mut app = two_environments();
    press(&mut app, &[KeyCode::Tab, KeyCode::Char('a'), KeyCode::Char('K'), KeyCode::Enter]);
    press(&mut app, &[KeyCode::Char('v'), KeyCode::Esc]);
    assert_eq!(app.state, AppState::VariableList);
    assert_eq!(app.input_key, "");
    assert_eq!(app.input_buffer, "");
    press(&mut app, &[KeyCode::Char('e')]);
    assert_eq!(app.state, AppState::EditVariable);
    assert_eq!(app.input_key, "A");
    assert_eq!(app.input_buffer, "1");
    press(&mut app, &[KeyCode::Esc]);
    assert_eq!(app.state, AppState::VariableList);
    assert_eq!(app.input_key, "");
    assert_eq!(app.input_buffer, "");
    assert!(app.commands.take_pending_writes().is_empty());
}

#[test]
fn edit_replaces_the_value() {
    let mut app = two_environments();
    press(&mut app, &[KeyCode::Tab, KeyCode::Char('e'), KeyCode::Backspace, KeyCode::Enter]);
    assert_eq!(app.state, AppState::EditVariable);
    assert_eq!(app.error_message, "Value cannot be empty");
    press(&mut app, &[KeyCode::Backspace, KeyCode::Char('4'), KeyCode::Char('2'), KeyCode::Enter]);
    assert_eq!(app.state, AppState::VariableList);
    assert_eq!(pairs(&app.variables), vec![pair("A", "42")]);
    assert_eq!(app.status_message, "Updated variable: A=42");
    assert_eq!(app.error_message, "");
    assert_eq!(app.input_key, "");
    assert_eq!(app.input_buffer, "");
}

#[test]
fn edit_and_delete_need_a_variable() {
    let mut app = two_environments();
    press(&mut app, &[KeyCode::Down, KeyCode::Enter]);
    assert!(app.variables.is_empty());
    press(&mut app, &[KeyCode::Char('e')]);
    assert_eq!(app.state, AppState::VariableList);
    press(&mut app, &[KeyCode::Char('d')]);
    assert_eq!(app.state, AppState::VariableList);
    press(&mut app, &[KeyCode::Delete]);
    assert_eq!(app.state, AppState::VariableList);
}

#[test]
fn deleting_the_only_variable_leaves_an_empty_list() {
    let mut app = two_environments();
    press(&mut app, &[KeyCode::Tab, KeyCode::Char('d'), KeyCode::Char('y')]);
    assert_eq!(app.state, AppState::VariableList);
    assert!(app.variables.is_empty());
    assert_eq!(app.selected_var_index, 0);
    assert_eq!(app.status_message, "Deleted variable: A");
    assert!(matches!(
        app.commands.get_variable("A", "development"),
        Err(EnvMatchError::VariableNotFound { .. })
    ));
}

#[test]
fn deleting_moves_the_cursor_only_from_behind_the_list() {
    let mut app = two_environments();
    app.commands.set_variable("B", "2", "development").unwrap();
    app.commands.set_variable("C", "3", "development").unwrap();
    press(&mut app, &[KeyCode::Tab, KeyCode::F(5), KeyCode::Down]);
    assert_eq!(app.selected_var_index, 1);
    press(&mut app, &[KeyCode::Delete, KeyCode::Char('Y')]);
    assert_eq!(pairs(&app.variables), vec![pair("A", "1"), pair("C", "3")]);
    assert_eq!(app.selected_var_index, 1);
    press(&mut app, &[KeyCode::Char('d'), KeyCode::Char('y')]);
    assert_eq!(pairs(&app.variables), vec![pair("A", "1")]);
    assert_eq!(app.selected_var_index, 0);
    assert_eq!(app.status_message, "Deleted variable: C");
}

#[test]
fn store_errors_surface_as_the_error_message() {
    let mut app = two_environments();
    press(&mut app, &[KeyCode::Tab, KeyCode::Char('d')]);
    // the variable goes away behind the session's back
    app.commands.unset_variable("A", "development").unwrap();
    match app.handle_key(KeyCode::Char('y')) {
        Err(EnvMatchError::VariableNotFound { key, env }) => {
            assert_eq!(key, "A");
            assert_eq!(env, "development");
        }
        other => panic!("{:?}", other),
    }
    assert_eq!(app.state, AppState::ConfirmDelete);
    app.handle_event(Event::Key(KeyCode::Char('y')));
    assert_eq!(app.state, AppState::ConfirmDelete);
    assert_eq!(app.error_message, "Variable 'A' not found in environment 'development'");
    assert!(!app.should_quit);
    app.handle_event(Event::Tick);
    app.handle_event(Event::Resize);
    assert_eq!(app.error_message, "Variable 'A' not found in environment 'development'");
    app.handle_event(Event::Key(KeyCode::Esc));
    assert_eq!(app.state, AppState::VariableList);
}

#[test]
fn each_cycle_ends_with_a_tick() {
    assert_eq!(cycle_events(Polled::Nothing), vec![Event::Tick]);
    assert_eq!(cycle_events(Polled::Other), vec![Event::Tick]);
    assert_eq!(cycle_events(Polled::Resize), vec![Event::Resize, Event::Tick]);
    assert_eq!(
        cycle_events(Polled::Key(KeyCode::Char('q'))),
        vec![Event::Key(KeyCode::Char('q')), Event::Tick]
    );
}

#[test]
fn the_renderer_can_ask_for_the_selection_and_the_phase() {
    let mut app = two_environments();
    assert_eq!(app.selected_variable().map(|v| v.key.as_str()), Some("A"));
    assert!(app.entering_key());
    press(&mut app, &[KeyCode::Tab, KeyCode::Char('a'), KeyCode::Char('K')]);
    assert!(app.entering_key());
    press(&mut app, &[KeyCode::Enter]);
    assert!(!app.entering_key());
    press(&mut app, &[KeyCode::Esc, KeyCode::Tab, KeyCode::Down, KeyCode::Enter]);
    assert!(app.selected_variable().is_none());
}
