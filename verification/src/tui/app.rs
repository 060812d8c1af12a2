//! The state of the interactive session and the state machine that turns
//! keys into navigation, editing and commands on the store.
//!
//! `AppView::on_key` says, for every state and every key, what the session
//! looks like afterwards and which error, if any, comes out; `App::handle_key`
//! does exactly that.

use crate::commands::{is_listing, listing, pairs_view, EnvMatchCommands};
use crate::config::{valid_environment_name, StoreView};
use crate::error::{error_view, EnvMatchError, EnvMatchErrorView};
use crate::string_map::{is_key_listing, strings_view};
use crate::tui::event::{Event, KeyCode};
use vstd::prelude::*;

verus! {

/// The mode of the session: which list or dialog the keys go to.
#[derive(Clone, Copy, Debug, PartialEq, Eq)]
pub enum AppState {
    /// Browsing the environments.
    EnvironmentList,
    /// Browsing the variables of the current environment.
    VariableList,
    /// Typing a new variable: first its key, then its value.
    AddVariable,
    /// Typing a new value for the selected variable.
    EditVariable,
    /// Asked whether the selected variable shall go.
    ConfirmDelete,
}

impl Default for AppState {
    /// A session starts in the list of environments.
    fn default() -> (r: Self)
        ensures
            r == AppState::EnvironmentList,
    {
        AppState::EnvironmentList
    }
}

/// One variable of the current environment, as the session shows it.
#[derive(Debug, PartialEq, Eq)]
pub struct Variable {
    pub key: String,
    pub value: String,
}

impl View for Variable {
    type V = (Seq<char>, Seq<char>);

    open spec fn view(&self) -> (Seq<char>, Seq<char>) {
        (self.key@, self.value@)
    }
}

impl Clone for Variable {
    fn clone(&self) -> (r: Self)
        ensures
            r@ == self@,
    {
        Variable { key: self.key.clone(), value: self.value.clone() }
    }
}

/// The contents of a vector of variables.
pub open spec fn variables_view(v: Seq<Variable>) -> Seq<(Seq<char>, Seq<char>)> {
    Seq::new(v.len(), |i: int| v[i]@)
}

/// The index of the first of `names` from `from` on that is `name`, or the
/// length of `names` where there is none.
pub open spec fn first_match(names: Seq<Seq<char>>, name: Seq<char>, from: int) -> int
    decreases names.len() - from,
{
    if from < 0 || from >= names.len() {
        names.len() as int
    } else if names[from] == name {
        from
    } else {
        first_match(names, name, from + 1)
    }
}

/// The index of `name` among `names`, or 0 where it is not among them.
pub open spec fn position_or_zero(names: Seq<Seq<char>>, name: Seq<char>) -> int {
    let found = first_match(names, name, 0);
    if found < names.len() {
        found
    } else {
        0
    }
}

/// The names of a set of environments in ascending order.
pub open spec fn sorted_names(names: Set<Seq<char>>) -> Seq<Seq<char>> {
    choose|list: Seq<Seq<char>>| is_key_listing(list, names)
}

/// A cursor one place up, if there is one.
pub open spec fn moved_up(index: int) -> int {
    if index > 0 {
        index - 1
    } else {
        index
    }
}

/// A cursor one place down in a list of `len` items, if there is one.
pub open spec fn moved_down(index: int, len: int) -> int {
    if index + 1 < len {
        index + 1
    } else {
        index
    }
}

/// A buffer after a backspace.
pub open spec fn without_last(buffer: Seq<char>) -> Seq<char> {
    if buffer.len() > 0 {
        buffer.drop_last()
    } else {
        buffer
    }
}

/// The session as a mathematical value.
pub struct AppView {
    pub state: AppState,
    pub store: StoreView,
    pub current_environment: Seq<char>,
    pub environments: Seq<Seq<char>>,
    pub variables: Seq<(Seq<char>, Seq<char>)>,
    pub selected_env_index: int,
    pub selected_var_index: int,
    pub input_buffer: Seq<char>,
    pub input_key: Seq<char>,
    pub should_quit: bool,
    pub status_message: Seq<char>,
    pub error_message: Seq<char>,
    pub show_help: bool,
}

/// What a key does: the session after it, and the error it ends with, if it
/// ends with one.
pub struct Step {
    pub app: AppView,
    pub error: Option<EnvMatchErrorView>,
}

impl AppView {
    /// This session, reached without an error.
    pub open spec fn done(self) -> Step {
        Step { app: self, error: None }
    }

    /// This session, reached with the error `e`.
    pub open spec fn failed(self, e: EnvMatchErrorView) -> Step {
        Step { app: self, error: Some(e) }
    }

    /// The session that starts on `store`: the current environment's
    /// variables are loaded, the cursor of the environments stands on the
    /// current one if it is listed, and nothing else is set.
    pub open spec fn start(store: StoreView) -> AppView {
        let current = store.global->Some_0;
        let environments = sorted_names(store.environments.dom());
        AppView {
            state: AppState::EnvironmentList,
            store: store.loaded(current),
            current_environment: current,
            environments,
            variables: listing(store.variables_of(current)),
            selected_env_index: position_or_zero(environments, current),
            selected_var_index: 0,
            input_buffer: Seq::empty(),
            input_key: Seq::empty(),
            should_quit: false,
            status_message: Seq::empty(),
            error_message: Seq::empty(),
            show_help: false,
        }
    }

    /// The cursors stand inside their lists, or at 0 where a list is empty.
    pub open spec fn cursors_in_bounds(self) -> bool {
        &&& 0 <= self.selected_env_index
        &&& self.environments.len() > 0 ==> self.selected_env_index < self.environments.len()
        &&& self.environments.len() == 0 ==> self.selected_env_index == 0
        &&& 0 <= self.selected_var_index
        &&& self.variables.len() > 0 ==> self.selected_var_index < self.variables.len()
        &&& self.variables.len() == 0 ==> self.selected_var_index == 0
    }

    /// The variables shown are those that the store holds for the current
    /// environment, sorted by key; that environment exists and the store is
    /// initialized.
    pub open spec fn in_step_with_store(self) -> bool {
        &&& self.store.is_initialized()
        &&& self.store.environments.contains_key(self.current_environment)
        &&& is_listing(self.variables, self.store.environments[self.current_environment])
    }

    /// What holds of a session between any two keys, as long as nothing but
    /// the session changes its store.
    pub open spec fn consistent(self) -> bool {
        &&& self.store.wf()
        &&& self.in_step_with_store()
        &&& self.cursors_in_bounds()
    }

    /// The variables of the current environment are loaded anew.
    pub open spec fn refresh_variables(self) -> Step {
        let env = self.current_environment;
        if self.store.can_load(env) {
            AppView {
                store: self.store.loaded(env),
                variables: listing(self.store.variables_of(env)),
                ..self
            }.done()
        } else {
            self.failed(self.store.load_error(env))
        }
    }

    /// `env` becomes the current environment of the store and of the
    /// session. The list of environments is read anew from the store, and
    /// its cursor is put on `env`.
    pub open spec fn switch_environment(self, env: Seq<char>) -> Step {
        if self.store.can_load(env) {
            let store = self.store.switch_environment(env);
            let environments = sorted_names(store.environments.dom());
            AppView {
                store,
                current_environment: env,
                environments,
                selected_env_index: position_or_zero(environments, env),
                variables: listing(self.store.variables_of(env)),
                selected_var_index: 0,
                status_message: "Switched to environment: "@ + env,
                error_message: Seq::empty(),
                ..self
            }.done()
        } else {
            self.failed(self.store.load_error(env))
        }
    }

    /// The variable in the buffers is saved in the current environment and
    /// the session goes back to the list with `status`.
    pub open spec fn save_input(self, status: Seq<char>) -> Step {
        let env = self.current_environment;
        if self.store.is_initialized() && valid_environment_name(env) {
            AppView {
                store: self.store.set_variable(self.input_key, self.input_buffer, env),
                variables: listing(
                    self.store.variables_of(env).insert(self.input_key, self.input_buffer),
                ),
                state: AppState::VariableList,
                status_message: status,
                input_key: Seq::empty(),
                input_buffer: Seq::empty(),
                error_message: Seq::empty(),
                ..self
            }.done()
        } else {
            self.failed(self.store.load_error(env))
        }
    }

    /// The new variable is committed, unless its key or its value is
    /// missing.
    pub open spec fn add_variable(self) -> Step {
        if self.input_key.len() == 0 || self.input_buffer.len() == 0 {
            AppView { error_message: "Both key and value are required"@, ..self }.done()
        } else {
            self.save_input("Added variable: "@ + self.input_key + "="@ + self.input_buffer)
        }
    }

    /// The new value is committed, unless it is empty.
    pub open spec fn edit_variable(self) -> Step {
        if self.input_buffer.len() == 0 {
            AppView { error_message: "Value cannot be empty"@, ..self }.done()
        } else {
            self.save_input("Updated variable: "@ + self.input_key + "="@ + self.input_buffer)
        }
    }

    /// The selected variable is taken out of the current environment, and
    /// the cursor moves to the last variable if it would else stand behind
    /// the list.
    pub open spec fn delete_variable(self) -> Step {
        if 0 <= self.selected_var_index < self.variables.len() {
            let key = self.variables[self.selected_var_index].0;
            let env = self.current_environment;
            let stored = self.store.variables_of(env);
            if !self.store.can_load(env) {
                self.failed(self.store.load_error(env))
            } else if !stored.contains_key(key) {
                AppView { store: self.store.loaded(env), ..self }.failed(
                    EnvMatchErrorView::VariableNotFound { key, env },
                )
            } else if !valid_environment_name(env) {
                self.failed(EnvMatchErrorView::InvalidEnvironmentName { name: env })
            } else {
                let remaining = listing(stored.remove(key));
                AppView {
                    store: self.store.unset_variable(key, env),
                    variables: remaining,
                    status_message: "Deleted variable: "@ + key,
                    error_message: Seq::empty(),
                    selected_var_index: if self.selected_var_index >= remaining.len()
                        && remaining.len() > 0 {
                        remaining.len() - 1
                    } else {
                        self.selected_var_index
                    },
                    ..self
                }.done()
            }
        } else {
            self.done()
        }
    }

    /// A key in the list of environments.
    pub open spec fn on_env_list_key(self, key: KeyCode) -> Step {
        match key {
            KeyCode::Char(c) => if c == 'q' {
                AppView { should_quit: true, ..self }.done()
            } else if c == 'h' {
                AppView { show_help: !self.show_help, ..self }.done()
            } else if c == 'k' {
                AppView { selected_env_index: moved_up(self.selected_env_index), ..self }.done()
            } else if c == 'j' {
                AppView {
                    selected_env_index: moved_down(
                        self.selected_env_index,
                        self.environments.len() as int,
                    ),
                    ..self
                }.done()
            } else {
                self.done()
            },
            KeyCode::F(n) => if n == 1 {
                AppView { show_help: !self.show_help, ..self }.done()
            } else {
                self.done()
            },
            KeyCode::Up => AppView {
                selected_env_index: moved_up(self.selected_env_index),
                ..self
            }.done(),
            KeyCode::Down => AppView {
                selected_env_index: moved_down(
                    self.selected_env_index,
                    self.environments.len() as int,
                ),
                ..self
            }.done(),
            KeyCode::Enter => if 0 <= self.selected_env_index < self.environments.len() {
                let switched = self.switch_environment(self.environments[self.selected_env_index]);
                if switched.error is None {
                    AppView { state: AppState::VariableList, ..switched.app }.done()
                } else {
                    switched
                }
            } else {
                AppView { state: AppState::VariableList, ..self }.done()
            },
            KeyCode::Tab => AppView { state: AppState::VariableList, ..self }.done(),
            _ => self.done(),
        }
    }

    /// A key in the list of variables.
    pub open spec fn on_var_list_key(self, key: KeyCode) -> Step {
        match key {
            KeyCode::Char(c) => if c == 'q' {
                AppView { should_quit: true, ..self }.done()
            } else if c == 'h' {
                AppView { show_help: !self.show_help, ..self }.done()
            } else if c == 'k' {
                AppView { selected_var_index: moved_up(self.selected_var_index), ..self }.done()
            } else if c == 'j' {
                AppView {
                    selected_var_index: moved_down(
                        self.selected_var_index,
                        self.variables.len() as int,
                    ),
                    ..self
                }.done()
            } else if c == 'a' {
                self.begin_add()
            } else if c == 'e' {
                self.begin_edit()
            } else if c == 'd' {
                self.begin_delete()
            } else {
                self.done()
            },
            KeyCode::F(n) => if n == 1 {
                AppView { show_help: !self.show_help, ..self }.done()
            } else if n == 5 {
                self.refresh_variables()
            } else {
                self.done()
            },
            KeyCode::Up => AppView {
                selected_var_index: moved_up(self.selected_var_index),
                ..self
            }.done(),
            KeyCode::Down => AppView {
                selected_var_index: moved_down(
                    self.selected_var_index,
                    self.variables.len() as int,
                ),
                ..self
            }.done(),
            KeyCode::Delete => self.begin_delete(),
            KeyCode::Tab => AppView { state: AppState::EnvironmentList, ..self }.done(),
            _ => self.done(),
        }
    }

    /// The dialog for a new variable opens with empty buffers.
    pub open spec fn begin_add(self) -> Step {
        AppView {
            input_key: Seq::empty(),
            input_buffer: Seq::empty(),
            state: AppState::AddVariable,
            ..self
        }.done()
    }

    /// The dialog for a new value opens on the selected variable, if one is
    /// selected.
    pub open spec fn begin_edit(self) -> Step {
        if 0 <= self.selected_var_index < self.variables.len() {
            AppView {
                input_key: self.variables[self.selected_var_index].0,
                input_buffer: self.variables[self.selected_var_index].1,
                state: AppState::EditVariable,
                ..self
            }.done()
        } else {
            self.done()
        }
    }

    /// The question before a deletion opens, if there is a variable to
    /// delete.
    pub open spec fn begin_delete(self) -> Step {
        if self.variables.len() > 0 {
            AppView { state: AppState::ConfirmDelete, ..self }.done()
        } else {
            self.done()
        }
    }

    /// The dialog closes and its buffers are emptied.
    pub open spec fn cancel_input(self) -> Step {
        AppView {
            state: AppState::VariableList,
            input_key: Seq::empty(),
            input_buffer: Seq::empty(),
            ..self
        }.done()
    }

    /// A key while a new variable is typed.
    pub open spec fn on_add_var_key(self, key: KeyCode) -> Step {
        match key {
            KeyCode::Esc => self.cancel_input(),
            KeyCode::Enter => if self.input_key.len() == 0 {
                if self.input_buffer.len() > 0 {
                    AppView {
                        input_key: self.input_buffer,
                        input_buffer: Seq::empty(),
                        ..self
                    }.done()
                } else {
                    self.done()
                }
            } else {
                self.add_variable()
            },
            KeyCode::Backspace => AppView {
                input_buffer: without_last(self.input_buffer),
                ..self
            }.done(),
            KeyCode::Char(c) => AppView { input_buffer: self.input_buffer.push(c), ..self }.done(),
            _ => self.done(),
        }
    }

    /// A key while a new value is typed.
    pub open spec fn on_edit_var_key(self, key: KeyCode) -> Step {
        match key {
            KeyCode::Esc => self.cancel_input(),
            KeyCode::Enter => self.edit_variable(),
            KeyCode::Backspace => AppView {
                input_buffer: without_last(self.input_buffer),
                ..self
            }.done(),
            KeyCode::Char(c) => AppView { input_buffer: self.input_buffer.push(c), ..self }.done(),
            _ => self.done(),
        }
    }

    /// A key in answer to the question before a deletion.
    pub open spec fn on_confirm_delete_key(self, key: KeyCode) -> Step {
        match key {
            KeyCode::Char(c) => if c == 'y' || c == 'Y' {
                let deleted = self.delete_variable();
                if deleted.error is None {
                    AppView { state: AppState::VariableList, ..deleted.app }.done()
                } else {
                    deleted
                }
            } else if c == 'n' || c == 'N' {
                AppView { state: AppState::VariableList, ..self }.done()
            } else {
                self.done()
            },
            KeyCode::Esc => AppView { state: AppState::VariableList, ..self }.done(),
            _ => self.done(),
        }
    }

    /// A key, in whatever state the session is.
    pub open spec fn on_key(self, key: KeyCode) -> Step {
        match self.state {
            AppState::EnvironmentList => self.on_env_list_key(key),
            AppState::VariableList => self.on_var_list_key(key),
            AppState::AddVariable => self.on_add_var_key(key),
            AppState::EditVariable => self.on_edit_var_key(key),
            AppState::ConfirmDelete => self.on_confirm_delete_key(key),
        }
    }

    /// An event: a key is handled, and an error that comes out of it is
    /// written into the error message; a tick or a resize changes nothing.
    pub open spec fn on_event(self, event: Event) -> AppView {
        match event {
            Event::Key(key) => {
                let step = self.on_key(key);
                match step.error {
                    Some(e) => AppView { error_message: e.message(), ..step.app },
                    None => step.app,
                }
            },
            Event::Tick => self,
            Event::Resize => self,
        }
    }
}

/// The interactive session.
#[derive(Debug)]
pub struct App {
    pub state: AppState,
    pub commands: EnvMatchCommands,
    pub current_environment: String,
    /// The names of the environments, sorted: read when the session starts
    /// and anew on every switch of the environment, at no other time.
    pub environments: Vec<String>,
    /// The variables of the current environment, sorted by key.
    pub variables: Vec<Variable>,
    pub selected_env_index: usize,
    pub selected_var_index: usize,
    pub input_buffer: String,
    pub input_key: String,
    pub should_quit: bool,
    pub status_message: String,
    pub error_message: String,
    pub show_help: bool,
}

impl View for App {
    type V = AppView;

    open spec fn view(&self) -> AppView {
        AppView {
            state: self.state,
            store: self.commands@,
            current_environment: self.current_environment@,
            environments: strings_view(self.environments@),
            variables: variables_view(self.variables@),
            selected_env_index: self.selected_env_index as int,
            selected_var_index: self.selected_var_index as int,
            input_buffer: self.input_buffer@,
            input_key: self.input_key@,
            should_quit: self.should_quit,
            status_message: self.status_message@,
            error_message: self.error_message@,
            show_help: self.show_help,
        }
    }
}

/// The index of `name` in `names`, or 0 where it is not there.
pub fn position_of(names: &Vec<String>, name: &String) -> (r: usize)
    ensures
        r == position_or_zero(strings_view(names@), name@),
{
    let ghost all = strings_view(names@);
    let mut i: usize = 0;
    while i < names.len()
        invariant
            i <= names@.len(),
            all == strings_view(names@),
            first_match(all, name@, 0) == first_match(all, name@, i as int),
        decreases names@.len() - i,
    {
        assert(all[i as int] == names@[i as int]@);
        if names[i] == *name {
            return i;
        }
        i = i + 1;
    }
    0
}

impl App {
    /// The store of a session is a well-formed store.
    pub proof fn lemma_store_wf(&self)
        ensures
            self@.store.wf(),
    {
        self.commands.lemma_view_wf();
    }

    /// Starts a session on `commands`. The store must be initialized, and
    /// its current environment must exist or have a name under which it can
    /// be created.
    pub fn new(commands: EnvMatchCommands) -> (r: Result<App, EnvMatchError>)
        ensures
            match r {
                Ok(app) => {
                    &&& commands@.can_load(commands@.global->Some_0)
                    &&& app@ == AppView::start(commands@)
                },
                Err(e) => {
                    &&& !commands@.can_load(commands@.global->Some_0)
                    &&& e@ == commands@.load_error(commands@.global->Some_0)
                },
            },
    {
        let mut commands = commands;
        let ghost store = commands@;
        if !commands.is_initialized() {
            return Err(EnvMatchError::NotInitialized);
        }
        let current_environment = match commands.show_current_environment() {
            Ok(name) => name,
            Err(e) => {
                return Err(e);
            },
        };
        let environments = match commands.list_environments() {
            Ok(names) => names,
            Err(e) => {
                return Err(e);
            },
        };
        let variables = match Self::load_variables(&mut commands, current_environment.as_str()) {
            Ok(variables) => variables,
            Err(e) => {
                return Err(e);
            },
        };
        let selected_env_index = position_of(&environments, &current_environment);
        proof {
            crate::string_map::lemma_key_listing_unique(
                strings_view(environments@),
                sorted_names(store.environments.dom()),
                store.environments.dom(),
            );
        }
        Ok(
            App {
                state: AppState::EnvironmentList,
                commands,
                current_environment,
                environments,
                variables,
                selected_env_index,
                selected_var_index: 0,
                input_buffer: String::new(),
                input_key: String::new(),
                should_quit: false,
                status_message: String::new(),
                error_message: String::new(),
                show_help: false,
            },
        )
    }

    /// The variables of `env_name` in the store, sorted by key.
    pub fn load_variables(commands: &mut EnvMatchCommands, env_name: &str) -> (r: Result<
        Vec<Variable>,
        EnvMatchError,
    >)
        ensures
            match r {
                Ok(variables) => {
                    &&& old(commands)@.can_load(env_name@)
                    &&& is_listing(variables_view(variables@), old(commands)@.variables_of(env_name@))
                    &&& variables_view(variables@) == listing(
                        old(commands)@.variables_of(env_name@),
                    )
                    &&& final(commands)@ == old(commands)@.loaded(env_name@)
                },
                Err(e) => {
                    &&& !old(commands)@.can_load(env_name@)
                    &&& e@ == old(commands)@.load_error(env_name@)
                    &&& final(commands)@ == old(commands)@
                },
            },
    {
        let vars = match commands.list_variables(Some(env_name)) {
            Ok(vars) => vars,
            Err(e) => {
                return Err(e);
            },
        };
        let mut variables: Vec<Variable> = Vec::new();
        let mut i: usize = 0;
        while i < vars.len()
            invariant
                i <= vars@.len(),
                variables@.len() == i,
                forall|j: int| 0 <= j < i ==> (#[trigger] variables@[j])@ == pairs_view(vars@)[j],
            decreases vars@.len() - i,
        {
            variables.push(Variable { key: vars[i].0.clone(), value: vars[i].1.clone() });
            i = i + 1;
        }
        assert(variables_view(variables@) =~= pairs_view(vars@));
        Ok(variables)
    }

    /// The variable under the cursor, if the cursor stands on one.
    pub fn selected_variable(&self) -> (r: Option<&Variable>)
        ensures
            match r {
                Some(variable) => self.selected_var_index < self.variables@.len() && *variable
                    == self.variables@[self.selected_var_index as int],
                None => self.selected_var_index >= self.variables@.len(),
            },
    {
        if self.selected_var_index < self.variables.len() {
            Some(&self.variables[self.selected_var_index])
        } else {
            None
        }
    }

    /// Whether the dialog for a new variable still waits for the key: no
    /// key has been captured yet.
    pub fn entering_key(&self) -> (r: bool)
        ensures
            r == (self@.input_key.len() == 0),
    {
        self.input_key.as_str().is_empty()
    }

    /// Handles one event of the session. An error of the store ends up in
    /// the error message; it never ends the session.
    pub fn handle_event(&mut self, event: Event)
        ensures
            final(self)@ == old(self)@.on_event(event),
    {
        match event {
            Event::Key(key) => {
                match self.handle_key(key) {
                    Ok(_) => {},
                    Err(e) => {
                        self.error_message = e.message();
                    },
                }
            },
            Event::Tick => {},
            Event::Resize => {},
        }
    }

    /// Handles one key in the state the session is in.
    pub fn handle_key(&mut self, key: KeyCode) -> (r: Result<(), EnvMatchError>)
        ensures
            final(self)@ == old(self)@.on_key(key).app,
            error_view(r) == old(self)@.on_key(key).error,
    {
        match self.state {
            AppState::EnvironmentList => self.handle_env_list_key(key),
            AppState::VariableList => self.handle_var_list_key(key),
            AppState::AddVariable => self.handle_add_var_key(key),
            AppState::EditVariable => self.handle_edit_var_key(key),
            AppState::ConfirmDelete => self.handle_confirm_delete_key(key),
        }
    }

    fn move_env_up(&mut self)
        ensures
            final(self)@ == (AppView {
                selected_env_index: moved_up(old(self)@.selected_env_index),
                ..old(self)@
            }),
    {
        if self.selected_env_index > 0 {
            self.selected_env_index -= 1;
        }
    }

    fn move_env_down(&mut self)
        ensures
            final(self)@ == (AppView {
                selected_env_index: moved_down(
                    old(self)@.selected_env_index,
                    old(self)@.environments.len() as int,
                ),
                ..old(self)@
            }),
    {
        if self.environments.len() > 0 && self.selected_env_index < self.environments.len() - 1 {
            self.selected_env_index += 1;
        }
    }

    fn move_var_up(&mut self)
        ensures
            final(self)@ == (AppView {
                selected_var_index: moved_up(old(self)@.selected_var_index),
                ..old(self)@
            }),
    {
        if self.selected_var_index > 0 {
            self.selected_var_index -= 1;
        }
    }

    fn move_var_down(&mut self)
        ensures
            final(self)@ == (AppView {
                selected_var_index: moved_down(
                    old(self)@.selected_var_index,
                    old(self)@.variables.len() as int,
                ),
                ..old(self)@
            }),
    {
        if self.variables.len() > 0 && self.selected_var_index < self.variables.len() - 1 {
            self.selected_var_index += 1;
        }
    }

    /// Handles a key in the list of environments.
    pub fn handle_env_list_key(&mut self, key: KeyCode) -> (r: Result<(), EnvMatchError>)
        ensures
            final(self)@ == old(self)@.on_env_list_key(key).app,
            error_view(r) == old(self)@.on_env_list_key(key).error,
    {
        match key {
            KeyCode::Char(c) => {
                if c == 'q' {
                    self.should_quit = true;
                } else if c == 'h' {
                    self.show_help = !self.show_help;
                } else if c == 'k' {
                    self.move_env_up();
                } else if c == 'j' {
                    self.move_env_down();
                }
            },
            KeyCode::F(n) => {
                if n == 1 {
                    self.show_help = !self.show_help;
                }
            },
            KeyCode::Up => {
                self.move_env_up();
            },
            KeyCode::Down => {
                self.move_env_down();
            },
            KeyCode::Enter => {
                if self.selected_env_index < self.environments.len() {
                    let env = self.environments[self.selected_env_index].clone();
                    match self.switch_environment(env) {
                        Ok(_) => {},
                        Err(e) => {
                            return Err(e);
                        },
                    }
                }
                self.state = AppState::VariableList;
            },
            KeyCode::Tab => {
                self.state = AppState::VariableList;
            },
            _ => {},
        }
        Ok(())
    }

    /// Handles a key in the list of variables.
    pub fn handle_var_list_key(&mut self, key: KeyCode) -> (r: Result<(), EnvMatchError>)
        ensures
            final(self)@ == old(self)@.on_var_list_key(key).app,
            error_view(r) == old(self)@.on_var_list_key(key).error,
    {
        match key {
            KeyCode::Char(c) => {
                if c == 'q' {
                    self.should_quit = true;
                } else if c == 'h' {
                    self.show_help = !self.show_help;
                } else if c == 'k' {
                    self.move_var_up();
                } else if c == 'j' {
                    self.move_var_down();
                } else if c == 'a' {
                    self.input_key = String::new();
                    self.input_buffer = String::new();
                    self.state = AppState::AddVariable;
                } else if c == 'e' {
                    match self.selected_variable() {
                        Some(variable) => {
                            let key = variable.key.clone();
                            let value = variable.value.clone();
                            self.input_key = key;
                            self.input_buffer = value;
                            self.state = AppState::EditVariable;
                        },
                        None => {},
                    }
                } else if c == 'd' {
                    if self.variables.len() > 0 {
                        self.state = AppState::ConfirmDelete;
                    }
                }
            },
            KeyCode::F(n) => {
                if n == 1 {
                    self.show_help = !self.show_help;
                } else if n == 5 {
                    return self.refresh_variables();
                }
            },
            KeyCode::Up => {
                self.move_var_up();
            },
            KeyCode::Down => {
                self.move_var_down();
            },
            KeyCode::Delete => {
                if self.variables.len() > 0 {
                    self.state = AppState::ConfirmDelete;
                }
            },
            KeyCode::Tab => {
                self.state = AppState::EnvironmentList;
            },
            _ => {},
        }
        Ok(())
    }

    /// Handles a key while a new variable is typed.
    pub fn handle_add_var_key(&mut self, key: KeyCode) -> (r: Result<(), EnvMatchError>)
        ensures
            final(self)@ == old(self)@.on_add_var_key(key).app,
            error_view(r) == old(self)@.on_add_var_key(key).error,
    {
        match key {
            KeyCode::Esc => {
                self.state = AppState::VariableList;
                self.input_key = String::new();
                self.input_buffer = String::new();
            },
            KeyCode::Enter => {
                if self.entering_key() {
                    if !self.input_buffer.as_str().is_empty() {
                        self.input_key = self.input_buffer.clone();
                        self.input_buffer = String::new();
                    }
                } else {
                    return self.add_variable();
                }
            },
            KeyCode::Backspace => {
                self.input_buffer.pop();
            },
            KeyCode::Char(c) => {
                self.input_buffer.push(c);
            },
            _ => {},
        }
        Ok(())
    }

    /// Handles a key while a new value is typed.
    pub fn handle_edit_var_key(&mut self, key: KeyCode) -> (r: Result<(), EnvMatchError>)
        ensures
            final(self)@ == old(self)@.on_edit_var_key(key).app,
            error_view(r) == old(self)@.on_edit_var_key(key).error,
    {
        match key {
            KeyCode::Esc => {
                self.state = AppState::VariableList;
                self.input_key = String::new();
                self.input_buffer = String::new();
            },
            KeyCode::Enter => {
                return self.edit_variable();
            },
            KeyCode::Backspace => {
                self.input_buffer.pop();
            },
            KeyCode::Char(c) => {
                self.input_buffer.push(c);
            },
            _ => {},
        }
        Ok(())
    }

    /// Handles a key in answer to the question before a deletion.
    pub fn handle_confirm_delete_key(&mut self, key: KeyCode) -> (r: Result<(), EnvMatchError>)
        ensures
            final(self)@ == old(self)@.on_confirm_delete_key(key).app,
            error_view(r) == old(self)@.on_confirm_delete_key(key).error,
    {
        match key {
            KeyCode::Char(c) => {
                if c == 'y' || c == 'Y' {
                    match self.delete_variable() {
                        Ok(_) => {},
                        Err(e) => {
                            return Err(e);
                        },
                    }
                    self.state = AppState::VariableList;
                } else if c == 'n' || c == 'N' {
                    self.state = AppState::VariableList;
                }
            },
            KeyCode::Esc => {
                self.state = AppState::VariableList;
            },
            _ => {},
        }
        Ok(())
    }

    /// Makes `env_name` the current environment, loads its variables, and
    /// reads the list of environments anew.
    pub fn switch_environment(&mut self, env_name: String) -> (r: Result<(), EnvMatchError>)
        ensures
            final(self)@ == old(self)@.switch_environment(env_name@).app,
            error_view(r) == old(self)@.switch_environment(env_name@).error,
    {
        match self.commands.switch_environment(env_name.as_str()) {
            Ok(_) => {},
            Err(e) => {
                return Err(e);
            },
        }
        match Self::load_variables(&mut self.commands, env_name.as_str()) {
            Ok(variables) => {
                self.variables = variables;
            },
            Err(e) => {
                assert(false);
                return Err(e);
            },
        }
        match self.commands.list_environments() {
            Ok(environments) => {
                proof {
                    crate::string_map::lemma_key_listing_unique(
                        strings_view(environments@),
                        sorted_names(self.commands@.environments.dom()),
                        self.commands@.environments.dom(),
                    );
                }
                self.selected_env_index = position_of(&environments, &env_name);
                self.environments = environments;
            },
            Err(e) => {
                assert(false);
                return Err(e);
            },
        }
        let mut status = String::from_str("Switched to environment: ");
        status.append(env_name.as_str());
        self.current_environment = env_name;
        self.selected_var_index = 0;
        self.status_message = status;
        self.error_message = String::new();
        Ok(())
    }

    /// Saves the variable in the buffers and goes back to the list with
    /// `status`.
    fn save_input(&mut self, status: String) -> (r: Result<(), EnvMatchError>)
        ensures
            final(self)@ == old(self)@.save_input(status@).app,
            error_view(r) == old(self)@.save_input(status@).error,
    {
        match self.commands.set_variable(
            self.input_key.as_str(),
            self.input_buffer.as_str(),
            self.current_environment.as_str(),
        ) {
            Ok(_) => {},
            Err(e) => {
                return Err(e);
            },
        }
        match self.refresh_variables() {
            Ok(_) => {},
            Err(e) => {
                assert(false);
                return Err(e);
            },
        }
        self.state = AppState::VariableList;
        self.status_message = status;
        self.input_key = String::new();
        self.input_buffer = String::new();
        self.error_message = String::new();
        Ok(())
    }

    /// Commits the new variable, or says what is missing.
    pub fn add_variable(&mut self) -> (r: Result<(), EnvMatchError>)
        ensures
            final(self)@ == old(self)@.add_variable().app,
            error_view(r) == old(self)@.add_variable().error,
    {
        if self.input_key.as_str().is_empty() || self.input_buffer.as_str().is_empty() {
            self.error_message = String::from_str("Both key and value are required");
            return Ok(());
        }
        let mut status = String::from_str("Added variable: ");
        status.append(self.input_key.as_str());
        status.append("=");
        status.append(self.input_buffer.as_str());
        self.save_input(status)
    }

    /// Commits the new value, or says that it is missing.
    pub fn edit_variable(&mut self) -> (r: Result<(), EnvMatchError>)
        ensures
            final(self)@ == old(self)@.edit_variable().app,
            error_view(r) == old(self)@.edit_variable().error,
    {
        if self.input_buffer.as_str().is_empty() {
            self.error_message = String::from_str("Value cannot be empty");
            return Ok(());
        }
        let mut status = String::from_str("Updated variable: ");
        status.append(self.input_key.as_str());
        status.append("=");
        status.append(self.input_buffer.as_str());
        self.save_input(status)
    }

    /// Deletes the selected variable, if one is selected.
    pub fn delete_variable(&mut self) -> (r: Result<(), EnvMatchError>)
        ensures
            final(self)@ == old(self)@.delete_variable().app,
            error_view(r) == old(self)@.delete_variable().error,
    {
        let selected = match self.selected_variable() {
            Some(variable) => Some(variable.key.clone()),
            None => None,
        };
        if let Some(key) = selected {
            match self.commands.unset_variable(key.as_str(), self.current_environment.as_str()) {
                Ok(_) => {},
                Err(e) => {
                    return Err(e);
                },
            }
            match self.refresh_variables() {
                Ok(_) => {},
                Err(e) => {
                    assert(false);
                    return Err(e);
                },
            }
            let mut status = String::from_str("Deleted variable: ");
            status.append(key.as_str());
            self.status_message = status;
            self.error_message = String::new();
            if self.selected_var_index >= self.variables.len() && self.variables.len() > 0 {
                self.selected_var_index = self.variables.len() - 1;
            }
        }
        Ok(())
    }

    /// Loads the variables of the current environment anew.
    pub fn refresh_variables(&mut self) -> (r: Result<(), EnvMatchError>)
        ensures
            final(self)@ == old(self)@.refresh_variables().app,
            error_view(r) == old(self)@.refresh_variables().error,
    {
        match Self::load_variables(&mut self.commands, self.current_environment.as_str()) {
            Ok(variables) => {
                self.variables = variables;
                Ok(())
            },
            Err(e) => Err(e),
        }
    }
}

} // verus!
