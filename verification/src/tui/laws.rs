//! What holds of the session's state machine whatever the keys: the cursors
//! stay in their lists, the variables shown are the store's, nothing is
//! committed without a key and a value, and a deletion takes exactly the
//! selected variable.

use crate::commands::{
    is_listing, lemma_listing_exists, lemma_listing_is, lemma_listing_len, listing, pair_keys,
};
use crate::config::{valid_environment_name, StoreView};
use crate::string_map::{is_key_listing, lemma_sorted_distinct};
use crate::tui::app::{first_match, sorted_names, AppState, AppView};
use crate::tui::event::KeyCode;
use vstd::prelude::*;

verus! {

/// A session starts consistent: on a well-formed store whose current
/// environment can be loaded, the variables shown are the store's and both
/// cursors stand inside their lists.
pub proof fn lemma_start_consistent(store: StoreView)
    requires
        store.wf(),
        store.can_load(store.global->Some_0),
    ensures
        AppView::start(store).consistent(),
        AppView::start(store).state == AppState::EnvironmentList,
{
    let current = store.global->Some_0;
    let variables = store.variables_of(current);
    assert(variables.dom().finite()) by {
        if !store.environments.contains_key(current) {
            assert(variables =~= Map::<Seq<char>, Seq<char>>::empty());
        }
    }
    lemma_listing_exists(variables);
    StoreView::lemma_steps_keep_wf(store, current, Map::empty());
    let names = sorted_names(store.environments.dom());
    lemma_first_match_in_range(names, current, 0);
}

proof fn lemma_first_match_in_range(names: Seq<Seq<char>>, name: Seq<char>, from: int)
    requires
        0 <= from <= names.len(),
    ensures
        from <= first_match(names, name, from) <= names.len(),
    decreases names.len() - from,
{
    if from < names.len() && names[from] != name {
        lemma_first_match_in_range(names, name, from + 1);
    }
}

/// Nothing but the quit key in one of the two lists ends a session, and a
/// session that is to end stays so.
pub proof fn lemma_quit_only_from_lists(app: AppView, key: KeyCode)
    ensures
        app.should_quit ==> app.on_key(key).app.should_quit,
        !app.should_quit && app.on_key(key).app.should_quit ==> key == KeyCode::Char('q') && (
        app.state == AppState::EnvironmentList || app.state == AppState::VariableList),
{
}

/// The store is touched by no key but those that stand for a command: a
/// confirm in the list of environments or in a dialog, a refresh in the
/// list of variables, and a yes before a deletion.
pub proof fn lemma_store_touched_only_by_commands(app: AppView, key: KeyCode)
    ensures
        app.on_key(key).app.store != app.store ==> {
            ||| app.state == AppState::EnvironmentList && key == KeyCode::Enter
            ||| app.state == AppState::VariableList && key == KeyCode::F(5)
            ||| app.state == AppState::AddVariable && key == KeyCode::Enter
            ||| app.state == AppState::EditVariable && key == KeyCode::Enter
            ||| app.state == AppState::ConfirmDelete && (key == KeyCode::Char('y') || key
                == KeyCode::Char('Y'))
        },
{
}

/// The input buffers change only where a dialog opens, is typed in, or
/// closes: never in the list of environments or before a deletion, and in
/// the list of variables only on the way into a dialog.
pub proof fn lemma_buffers_belong_to_dialogs(app: AppView, key: KeyCode)
    ensures
        app.state == AppState::EnvironmentList || app.state == AppState::ConfirmDelete ==> {
            &&& app.on_key(key).app.input_key == app.input_key
            &&& app.on_key(key).app.input_buffer == app.input_buffer
        },
        app.state == AppState::VariableList && (app.on_key(key).app.input_key != app.input_key
            || app.on_key(key).app.input_buffer != app.input_buffer) ==> app.on_key(
            key,
        ).app.state == AppState::AddVariable || app.on_key(key).app.state
            == AppState::EditVariable,
{
}

/// Whether `key` moves a cursor: an arrow up or down, or `k` or `j`.
pub open spec fn is_move_key(key: KeyCode) -> bool {
    key == KeyCode::Up || key == KeyCode::Down || key == KeyCode::Char('k') || key == KeyCode::Char(
        'j',
    )
}

/// The session after a sequence of keys, errors dropped.
pub open spec fn on_keys(app: AppView, keys: Seq<KeyCode>) -> AppView
    decreases keys.len(),
{
    if keys.len() == 0 {
        app
    } else {
        on_keys(app, keys.drop_last()).on_key(keys.last()).app
    }
}

/// However many times the cursor is moved up and down in one of the two
/// lists, it stays inside the list, and nothing but the cursor of that list
/// changes.
pub proof fn lemma_moves_stay_in_bounds(app: AppView, keys: Seq<KeyCode>)
    requires
        app.state == AppState::EnvironmentList || app.state == AppState::VariableList,
        app.cursors_in_bounds(),
        forall|i: int| 0 <= i < keys.len() ==> is_move_key(#[trigger] keys[i]),
    ensures
        on_keys(app, keys).cursors_in_bounds(),
        app.state == AppState::EnvironmentList ==> on_keys(app, keys) == (AppView {
            selected_env_index: on_keys(app, keys).selected_env_index,
            ..app
        }),
        app.state == AppState::VariableList ==> on_keys(app, keys) == (AppView {
            selected_var_index: on_keys(app, keys).selected_var_index,
            ..app
        }),
    decreases keys.len(),
{
    if keys.len() > 0 {
        let before = keys.drop_last();
        assert forall|i: int| 0 <= i < before.len() implies is_move_key(#[trigger] before[i]) by {
            assert(before[i] == keys[i]);
        }
        lemma_moves_stay_in_bounds(app, before);
        assert(is_move_key(keys[keys.len() - 1]));
    }
}

/// The list without its `at`-th variable is the sorted list of the
/// variables without that key.
pub proof fn lemma_listing_remove(
    list: Seq<(Seq<char>, Seq<char>)>,
    variables: Map<Seq<char>, Seq<char>>,
    at: int,
)
    requires
        is_listing(list, variables),
        0 <= at < list.len(),
    ensures
        is_listing(list.remove(at), variables.remove(list[at].0)),
        listing(variables.remove(list[at].0)) == list.remove(at),
{
    let key = list[at].0;
    let keys = pair_keys(list);
    let shorter = list.remove(at);
    let rest = variables.remove(key);
    assert(pair_keys(shorter) =~= keys.remove(at));
    assert forall|a: int, b: int| 0 <= a < b < shorter.len() implies crate::text::key_lt(
        #[trigger] pair_keys(shorter)[a],
        #[trigger] pair_keys(shorter)[b],
    ) by {
        let a0 = if a < at {
            a
        } else {
            a + 1
        };
        let b0 = if b < at {
            b
        } else {
            b + 1
        };
        assert(pair_keys(shorter)[a] == keys[a0] && pair_keys(shorter)[b] == keys[b0]);
    }
    assert forall|i: int| 0 <= i < shorter.len() implies rest.dom().contains(
        #[trigger] pair_keys(shorter)[i],
    ) by {
        let i0 = if i < at {
            i
        } else {
            i + 1
        };
        assert(pair_keys(shorter)[i] == keys[i0]);
        assert(variables.dom().contains(keys[i0]));
        lemma_sorted_distinct(keys, i0, at);
    }
    assert forall|k: Seq<char>| rest.dom().contains(k) implies exists|i: int|
        0 <= i < pair_keys(shorter).len() && pair_keys(shorter)[i] == k by {
        let j = choose|j: int| 0 <= j < keys.len() && keys[j] == k;
        let i = if j < at {
            j
        } else {
            j - 1
        };
        assert(pair_keys(shorter)[i] == k);
    }
    assert forall|i: int| 0 <= i < shorter.len() implies rest[shorter[i].0] == (
    #[trigger] shorter[i]).1 by {
        let i0 = if i < at {
            i
        } else {
            i + 1
        };
        assert(shorter[i] == list[i0]);
        assert(keys[i0] == list[i0].0);
        lemma_sorted_distinct(keys, i0, at);
    }
    lemma_listing_is(shorter, rest);
}

/// A finite set of names has a sorted list, and `sorted_names` is it.
pub proof fn lemma_sorted_names_exist(names: Set<Seq<char>>)
    requires
        names.finite(),
    ensures
        is_key_listing(sorted_names(names), names),
{
    let blank = Map::new(|k: Seq<char>| names.contains(k), |k: Seq<char>| Seq::<char>::empty());
    assert(blank.dom() =~= names);
    lemma_listing_exists(blank);
    assert(is_key_listing(pair_keys(listing(blank)), names));
}

/// Where `name` is among `names` from `from` on, the first match is an
/// index of it.
pub proof fn lemma_first_match_finds(names: Seq<Seq<char>>, name: Seq<char>, from: int, at: int)
    requires
        0 <= from <= at < names.len(),
        names[at] == name,
    ensures
        from <= first_match(names, name, from) <= at,
        names[first_match(names, name, from)] == name,
    decreases names.len() - from,
{
    if names[from] != name {
        lemma_first_match_finds(names, name, from + 1, at);
    }
}

/// Switching to an environment that can be loaded shows exactly the
/// variables that the store then holds for it, sorted by key, and makes it
/// the current environment of session and store. The list of environments
/// is then the store's, sorted, whatever it was before, and its cursor
/// stands on the environment switched to.
pub proof fn lemma_switch_shows_store(app: AppView, env: Seq<char>)
    requires
        app.store.wf(),
        app.store.can_load(env),
    ensures
        app.switch_environment(env).error is None,
        app.switch_environment(env).app.current_environment == env,
        app.switch_environment(env).app.store.global == Some(env),
        app.switch_environment(env).app.store.environments.contains_key(env),
        is_listing(
            app.switch_environment(env).app.variables,
            app.switch_environment(env).app.store.environments[env],
        ),
        app.switch_environment(env).app.selected_var_index == 0,
        is_key_listing(
            app.switch_environment(env).app.environments,
            app.switch_environment(env).app.store.environments.dom(),
        ),
        0 <= app.switch_environment(env).app.selected_env_index < app.switch_environment(
            env,
        ).app.environments.len(),
        app.switch_environment(env).app.environments[app.switch_environment(
            env,
        ).app.selected_env_index] == env,
{
    let variables = app.store.variables_of(env);
    assert(variables.dom().finite()) by {
        if !app.store.environments.contains_key(env) {
            assert(variables =~= Map::<Seq<char>, Seq<char>>::empty());
        }
    }
    lemma_listing_exists(variables);
    StoreView::lemma_steps_keep_wf(app.store, env, Map::empty());
    let after = app.store.switch_environment(env);
    lemma_sorted_names_exist(after.environments.dom());
    let names = sorted_names(after.environments.dom());
    assert(after.environments.dom().contains(env));
    let at = choose|i: int| 0 <= i < names.len() && names[i] == env;
    lemma_first_match_finds(names, env, 0, at);
}

/// A key keeps the session consistent: a well-formed store, the
/// variables of the current environment on show, and both cursors inside
/// their lists.
pub proof fn lemma_key_keeps_consistent(app: AppView, key: KeyCode)
    requires
        app.consistent(),
    ensures
        app.on_key(key).app.consistent(),
{
    let env = app.current_environment;
    let stored = app.store.environments[env];
    let after = app.on_key(key).app;
    lemma_listing_len(app.variables, stored);
    lemma_listing_is(app.variables, stored);
    match app.state {
        AppState::EnvironmentList => {
            if key == KeyCode::Enter && 0 <= app.selected_env_index < app.environments.len() {
                let target = app.environments[app.selected_env_index];
                if app.store.can_load(target) {
                    lemma_switch_shows_store(app, target);
                    let switched = app.switch_environment(target).app;
                    lemma_listing_len(switched.variables, switched.store.environments[target]);
                    StoreView::lemma_steps_keep_wf(app.store, target, Map::empty());
                }
            }
        },
        AppState::VariableList => {},
        AppState::AddVariable => {
            if key == KeyCode::Enter && app.input_key.len() > 0 && app.input_buffer.len() > 0
                && valid_environment_name(env) {
                lemma_save_keeps_consistent(app);
            }
        },
        AppState::EditVariable => {
            if key == KeyCode::Enter && app.input_buffer.len() > 0 && valid_environment_name(env) {
                lemma_save_keeps_consistent(app);
            }
        },
        AppState::ConfirmDelete => {
            if (key == KeyCode::Char('y') || key == KeyCode::Char('Y')) && 0
                <= app.selected_var_index < app.variables.len() {
                let at = app.selected_var_index;
                let name = app.variables[at].0;
                assert(pair_keys(app.variables)[at] == name);
                assert(stored.dom().contains(name));
                if valid_environment_name(env) {
                    lemma_listing_remove(app.variables, stored, at);
                    StoreView::lemma_steps_keep_wf(app.store, env, stored.remove(name));
                }
            }
        },
    }
}

proof fn lemma_save_keeps_consistent(app: AppView)
    requires
        app.consistent(),
        valid_environment_name(app.current_environment),
    ensures
        app.save_input(Seq::empty()).app.store.wf(),
        is_listing(
            app.save_input(Seq::empty()).app.variables,
            app.save_input(Seq::empty()).app.store.environments[app.current_environment],
        ),
        app.save_input(Seq::empty()).app.variables.len() >= app.variables.len(),
        app.save_input(Seq::empty()).app.variables.len() >= 1,
{
    let env = app.current_environment;
    let stored = app.store.environments[env];
    let changed = stored.insert(app.input_key, app.input_buffer);
    lemma_listing_len(app.variables, stored);
    lemma_listing_exists(changed);
    lemma_listing_len(listing(changed), changed);
    StoreView::lemma_steps_keep_wf(app.store, env, changed);
    assert(changed.dom() =~= stored.dom().insert(app.input_key));
    assert(changed.dom().contains(app.input_key));
    if stored.dom().contains(app.input_key) {
        assert(changed.dom() =~= stored.dom());
    }
}

/// While a new variable is typed, the store changes on no key but a confirm
/// with a captured key and a typed value. A confirm without a captured key
/// captures the typed text as the key, if there is any, and writes nothing;
/// a confirm with a key and without a value says so in the error message and
/// changes nothing else.
pub proof fn lemma_add_commits_only_key_and_value(app: AppView, key: KeyCode)
    requires
        app.state == AppState::AddVariable,
    ensures
        app.on_key(key).app.store != app.store ==> key == KeyCode::Enter && app.input_key.len() > 0
            && app.input_buffer.len() > 0,
        app.input_key.len() == 0 ==> app.on_key(key).app.store == app.store,
        app.input_key.len() == 0 && app.on_key(key).app.input_key.len() > 0 ==> key
            == KeyCode::Enter && app.on_key(key).app.input_key == app.input_buffer
            && app.on_key(key).app.state == AppState::AddVariable,
        key == KeyCode::Enter && app.input_key.len() > 0 && app.input_buffer.len() == 0
            ==> app.on_key(key).error is None && app.on_key(key).app == (AppView {
            error_message: "Both key and value are required"@,
            ..app
        }),
{
}

/// How often the confirm key occurs in `keys`.
pub open spec fn confirms(keys: Seq<KeyCode>) -> nat
    decreases keys.len(),
{
    if keys.len() == 0 {
        0
    } else if keys.last() == KeyCode::Enter {
        confirms(keys.drop_last()) + 1
    } else {
        confirms(keys.drop_last())
    }
}

/// Whether the session is in the dialog for a new variable before each of
/// `keys`.
pub open spec fn adding_throughout(app: AppView, keys: Seq<KeyCode>) -> bool {
    forall|n: int| 0 <= n < keys.len() ==> (#[trigger] on_keys(app, keys.subrange(0, n))).state
        == AppState::AddVariable
}

proof fn lemma_adding_prefix(app: AppView, keys: Seq<KeyCode>)
    requires
        adding_throughout(app, keys),
        keys.len() > 0,
    ensures
        adding_throughout(app, keys.drop_last()),
        on_keys(app, keys.drop_last()).state == AppState::AddVariable,
{
    let before = keys.drop_last();
    assert forall|n: int| 0 <= n < before.len() implies (#[trigger] on_keys(
        app,
        before.subrange(0, n),
    )).state == AppState::AddVariable by {
        assert(before.subrange(0, n) =~= keys.subrange(0, n));
    }
    assert(keys.subrange(0, keys.len() - 1) =~= before);
}

/// From an empty key, a key can only have been captured by a confirm.
pub proof fn lemma_key_captured_by_confirm(app: AppView, keys: Seq<KeyCode>)
    requires
        app.state == AppState::AddVariable,
        app.input_key.len() == 0,
        adding_throughout(app, keys),
        on_keys(app, keys).input_key.len() > 0,
    ensures
        confirms(keys) >= 1,
    decreases keys.len(),
{
    if keys.len() > 0 {
        let before = keys.drop_last();
        lemma_adding_prefix(app, keys);
        let middle = on_keys(app, before);
        if middle.input_key.len() > 0 {
            lemma_key_captured_by_confirm(app, before);
        } else {
            lemma_add_commits_only_key_and_value(middle, keys.last());
        }
    }
}

/// From the moment the dialog for a new variable opens, nothing reaches the
/// store before the second confirm.
pub proof fn lemma_commit_takes_two_confirms(app: AppView, keys: Seq<KeyCode>)
    requires
        app.state == AppState::AddVariable,
        app.input_key.len() == 0,
        adding_throughout(app, keys),
        on_keys(app, keys).store != app.store,
    ensures
        confirms(keys) >= 2,
    decreases keys.len(),
{
    if keys.len() > 0 {
        let before = keys.drop_last();
        lemma_adding_prefix(app, keys);
        let middle = on_keys(app, before);
        if middle.store != app.store {
            lemma_commit_takes_two_confirms(app, before);
        } else {
            lemma_add_commits_only_key_and_value(middle, keys.last());
            lemma_key_captured_by_confirm(app, before);
        }
    }
}

/// A deletion that the store accepts takes exactly the selected variable
/// out of the list; the cursor stays where it is unless it would stand
/// behind the list, and then it moves to the last variable.
pub proof fn lemma_delete_takes_selected(app: AppView)
    requires
        app.consistent(),
        app.variables.len() > 0,
        valid_environment_name(app.current_environment),
    ensures
        app.delete_variable().error is None,
        app.delete_variable().app.variables == app.variables.remove(app.selected_var_index),
        app.delete_variable().app.variables.len() == app.variables.len() - 1,
        app.selected_var_index < app.variables.len() - 1
            ==> app.delete_variable().app.selected_var_index == app.selected_var_index,
        app.selected_var_index == app.variables.len() - 1 && app.variables.len() > 1
            ==> app.delete_variable().app.selected_var_index == app.selected_var_index - 1,
        app.delete_variable().app.cursors_in_bounds(),
        is_listing(
            app.delete_variable().app.variables,
            app.delete_variable().app.store.environments[app.current_environment],
        ),
{
    let at = app.selected_var_index;
    let stored = app.store.environments[app.current_environment];
    assert(pair_keys(app.variables)[at] == app.variables[at].0);
    assert(stored.dom().contains(app.variables[at].0));
    lemma_listing_remove(app.variables, stored, at);
}

/// Deleting the only variable leaves the list empty and the cursor at 0.
pub proof fn lemma_delete_only_variable(app: AppView)
    requires
        app.consistent(),
        app.variables.len() == 1,
        valid_environment_name(app.current_environment),
    ensures
        app.delete_variable().error is None,
        app.delete_variable().app.variables.len() == 0,
        app.delete_variable().app.selected_var_index == 0,
        app.on_confirm_delete_key(KeyCode::Char('y')).app.variables.len() == 0,
        app.on_confirm_delete_key(KeyCode::Char('y')).app.selected_var_index == 0,
        app.on_confirm_delete_key(KeyCode::Char('y')).app.state == AppState::VariableList,
{
    lemma_delete_takes_selected(app);
}

} // verus!
