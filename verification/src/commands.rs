//! The commands of the manager, each as one step on the store. A command
//! returns what it found and leaves the store as the step left it; it prints
//! nothing.

use crate::config::{
    default_environment, valid_environment_name, ConfigManager, EnvConfig, StoreView, StoreWrite,
};
use crate::error::{EnvMatchError, EnvMatchErrorView};
use crate::string_map::{
    is_key_listing, lemma_insert_keeps_sorted, lemma_key_listing_len, lemma_key_listing_unique,
    lemma_lower_bound, lower_bound, strings_view,
};
use crate::text::{
    chars_of, is_whitespace_char, key_order, lemma_key_lt_total, string_of, KeyOrder,
};
use vstd::prelude::*;

verus! {

/// The keys of a list of pairs, in the order of the list.
pub open spec fn pair_keys(list: Seq<(Seq<char>, Seq<char>)>) -> Seq<Seq<char>> {
    Seq::new(list.len(), |i: int| list[i].0)
}

/// The contents of a vector of pairs of strings, each string by its
/// characters.
pub open spec fn pairs_view(v: Seq<(String, String)>) -> Seq<(Seq<char>, Seq<char>)> {
    Seq::new(v.len(), |i: int| (v[i].0@, v[i].1@))
}

/// `list` holds each variable of `variables` once, with its value, in
/// ascending order of the keys.
pub open spec fn is_listing(
    list: Seq<(Seq<char>, Seq<char>)>,
    variables: Map<Seq<char>, Seq<char>>,
) -> bool {
    &&& is_key_listing(pair_keys(list), variables.dom())
    &&& forall|i: int| 0 <= i < list.len() ==> variables[list[i].0] == (#[trigger] list[i]).1
}

/// The variables of an environment as a list sorted by key.
pub open spec fn listing(variables: Map<Seq<char>, Seq<char>>) -> Seq<(Seq<char>, Seq<char>)> {
    choose|list: Seq<(Seq<char>, Seq<char>)>| is_listing(list, variables)
}

/// A set of variables has at most one sorted list.
pub proof fn lemma_listing_unique(
    a: Seq<(Seq<char>, Seq<char>)>,
    b: Seq<(Seq<char>, Seq<char>)>,
    variables: Map<Seq<char>, Seq<char>>,
)
    requires
        is_listing(a, variables),
        is_listing(b, variables),
    ensures
        a == b,
{
    lemma_key_listing_unique(pair_keys(a), pair_keys(b), variables.dom());
    assert(a.len() == pair_keys(a).len());
    assert(b.len() == pair_keys(b).len());
    assert forall|i: int| 0 <= i < a.len() implies a[i] == b[i] by {
        assert(pair_keys(a)[i] == a[i].0);
        assert(pair_keys(b)[i] == b[i].0);
    }
    assert(a =~= b);
}

/// A sorted list of a set of variables is the sorted list of it.
pub proof fn lemma_listing_is(a: Seq<(Seq<char>, Seq<char>)>, variables: Map<Seq<char>, Seq<char>>)
    requires
        is_listing(a, variables),
    ensures
        a == listing(variables),
{
    lemma_listing_unique(a, listing(variables), variables);
}

/// Every finite set of variables has a sorted list, and `listing` is it.
pub proof fn lemma_listing_exists(variables: Map<Seq<char>, Seq<char>>)
    requires
        variables.dom().finite(),
    ensures
        is_listing(listing(variables), variables),
    decreases variables.dom().len(),
{
    if variables.dom().len() == 0 {
        let none = Seq::<(Seq<char>, Seq<char>)>::empty();
        assert(variables.dom() =~= Set::<Seq<char>>::empty());
        assert(is_listing(none, variables));
    } else {
        let key = variables.dom().choose();
        let rest = variables.remove(key);
        lemma_listing_exists(rest);
        let shorter = listing(rest);
        let keys = pair_keys(shorter);
        let at = lower_bound(keys, key, 0);
        lemma_lower_bound(keys, key, 0);
        if at < keys.len() {
            assert(rest.dom().contains(keys[at]));
            lemma_key_lt_total(key, keys[at]);
        }
        lemma_insert_keeps_sorted(keys, key, at);
        let longer = shorter.insert(at, (key, variables[key]));
        assert(pair_keys(longer) =~= keys.insert(at, key));
        assert forall|i: int| 0 <= i < longer.len() implies variables.dom().contains(
            #[trigger] pair_keys(longer)[i],
        ) by {
            if i < at {
                assert(rest.dom().contains(keys[i]));
            } else if i > at {
                assert(rest.dom().contains(keys[i - 1]));
            }
        }
        assert forall|i: int| 0 <= i < longer.len() implies variables[longer[i].0] == (
        #[trigger] longer[i]).1 by {
            if i < at {
                assert(longer[i] == shorter[i]);
                assert(rest.dom().contains(keys[i]));
            } else if i > at {
                assert(longer[i] == shorter[i - 1]);
                assert(rest.dom().contains(keys[i - 1]));
            }
        }
        assert forall|k: Seq<char>| variables.dom().contains(k) implies exists|i: int|
            0 <= i < pair_keys(longer).len() && pair_keys(longer)[i] == k by {
            if k == key {
                assert(pair_keys(longer)[at] == k);
            } else {
                assert(rest.dom().contains(k));
                let j = choose|j: int| 0 <= j < keys.len() && keys[j] == k;
                let i = if j < at {
                    j
                } else {
                    j + 1
                };
                assert(pair_keys(longer)[i] == k);
            }
        }
        assert(is_listing(longer, variables));
    }
}

/// A sorted list is as long as the set of variables is large, and only a
/// finite set has one.
pub proof fn lemma_listing_len(
    list: Seq<(Seq<char>, Seq<char>)>,
    variables: Map<Seq<char>, Seq<char>>,
)
    requires
        is_listing(list, variables),
    ensures
        variables.dom().finite(),
        list.len() == variables.dom().len(),
{
    lemma_key_listing_len(pair_keys(list), variables.dom());
}

/// The pieces of `s` between its commas, in order. A string without a comma
/// is one piece; the empty string is one empty piece.
pub open spec fn split_commas(s: Seq<char>) -> Seq<Seq<char>>
    decreases s.len(),
{
    if s.len() == 0 {
        seq![Seq::<char>::empty()]
    } else {
        let before = split_commas(s.drop_last());
        if s.last() == ',' {
            before.push(Seq::<char>::empty())
        } else {
            before.drop_last().push(before.last().push(s.last()))
        }
    }
}

/// `s` without the whitespace at its start.
pub open spec fn trim_start(s: Seq<char>) -> Seq<char>
    decreases s.len(),
{
    if s.len() > 0 && is_whitespace_char(s[0]) {
        trim_start(s.drop_first())
    } else {
        s
    }
}

/// `s` without the whitespace at its end.
pub open spec fn trim_end(s: Seq<char>) -> Seq<char>
    decreases s.len(),
{
    if s.len() > 0 && is_whitespace_char(s.last()) {
        trim_end(s.drop_last())
    } else {
        s
    }
}

/// `s` without the whitespace at both ends.
pub open spec fn trim(s: Seq<char>) -> Seq<char> {
    trim_end(trim_start(s))
}

/// The names that a list of required variables asks for: its pieces between
/// commas, each trimmed.
pub open spec fn required_names(required: Seq<char>) -> Seq<Seq<char>> {
    split_commas(required).map_values(|piece: Seq<char>| trim(piece))
}

/// Those of `names` that `variables` does not hold, in the order of
/// `names`; a name asked for twice is reported twice.
pub open spec fn missing_names(
    names: Seq<Seq<char>>,
    variables: Map<Seq<char>, Seq<char>>,
) -> Seq<Seq<char>>
    decreases names.len(),
{
    if names.len() == 0 {
        Seq::empty()
    } else if variables.contains_key(names.last()) {
        missing_names(names.drop_last(), variables)
    } else {
        missing_names(names.drop_last(), variables).push(names.last())
    }
}

/// Where a run of flags stops being true from the front, and from the back
/// of what is left: `r.0` is the index of the first `false`, or the length;
/// `r.1` is one past the last `false`, or the length too where none is
/// `false`.
pub open spec fn is_trim_bounds(flags: Seq<bool>, r: (int, int)) -> bool {
    &&& 0 <= r.0 <= r.1 <= flags.len()
    &&& forall|j: int| 0 <= j < r.0 ==> #[trigger] flags[j]
    &&& forall|j: int| r.1 <= j < flags.len() ==> #[trigger] flags[j]
    &&& r.0 < r.1 ==> !flags[r.0] && !flags[r.1 - 1]
    &&& r.0 == r.1 ==> r.0 == flags.len()
}

/// Finds the part of a string that trimming keeps, from a flag for each
/// character that says whether it is whitespace.
pub fn trim_bounds(flags: &Vec<bool>) -> (r: (usize, usize))
    ensures
        is_trim_bounds(flags@, (r.0 as int, r.1 as int)),
{
    let mut start: usize = 0;
    while start < flags.len() && flags[start]
        invariant
            start <= flags@.len(),
            forall|j: int| 0 <= j < start ==> #[trigger] flags@[j],
        decreases flags@.len() - start,
    {
        start = start + 1;
    }
    let mut end: usize = flags.len();
    while end > start && flags[end - 1]
        invariant
            start <= end <= flags@.len(),
            forall|j: int| end <= j < flags@.len() ==> #[trigger] flags@[j],
        decreases end,
    {
        end = end - 1;
    }
    (start, end)
}

proof fn lemma_trim_start(s: Seq<char>, k: int)
    requires
        0 <= k <= s.len(),
        forall|j: int| 0 <= j < k ==> is_whitespace_char(#[trigger] s[j]),
        k < s.len() ==> !is_whitespace_char(s[k]),
    ensures
        trim_start(s) == s.subrange(k, s.len() as int),
    decreases k,
{
    if k == 0 {
        assert(s.subrange(0, s.len() as int) =~= s);
    } else {
        let t = s.drop_first();
        assert forall|j: int| 0 <= j < k - 1 implies is_whitespace_char(#[trigger] t[j]) by {
            assert(t[j] == s[j + 1]);
        }
        lemma_trim_start(t, k - 1);
        assert(t.subrange(k - 1, t.len() as int) =~= s.subrange(k, s.len() as int));
    }
}

proof fn lemma_trim_end(s: Seq<char>, k: int)
    requires
        0 <= k <= s.len(),
        forall|j: int| k <= j < s.len() ==> is_whitespace_char(#[trigger] s[j]),
        k > 0 ==> !is_whitespace_char(s[k - 1]),
    ensures
        trim_end(s) == s.subrange(0, k),
    decreases s.len() - k,
{
    if k == s.len() {
        assert(s.subrange(0, k) =~= s);
    } else {
        let t = s.drop_last();
        lemma_trim_end(t, k);
        assert(t.subrange(0, k) =~= s.subrange(0, k));
    }
}

/// The string `chars` without the whitespace at both ends.
pub fn trim_chars(chars: &Vec<char>) -> (r: String)
    ensures
        r@ == trim(chars@),
{
    let mut flags: Vec<bool> = Vec::new();
    let mut i: usize = 0;
    while i < chars.len()
        invariant
            i <= chars@.len(),
            flags@.len() == i,
            forall|j: int| 0 <= j < i ==> #[trigger] flags@[j] == is_whitespace_char(chars@[j]),
        decreases chars@.len() - i,
    {
        flags.push(chars[i].is_whitespace());
        i = i + 1;
    }
    let (start, end) = trim_bounds(&flags);
    proof {
        let s = chars@;
        let n = s.len() as int;
        if start == end {
            // all of it is whitespace
            assert forall|j: int| 0 <= j < n implies is_whitespace_char(#[trigger] s[j]) by {
                assert(flags@[j]);
            }
            lemma_trim_start(s, n);
            assert(s.subrange(n, n) =~= Seq::<char>::empty());
            assert(s.subrange(start as int, end as int) =~= Seq::<char>::empty());
        } else {
            assert forall|j: int| 0 <= j < start implies is_whitespace_char(#[trigger] s[j]) by {
                assert(flags@[j]);
            }
            assert(!flags@[start as int]);
            lemma_trim_start(s, start as int);
            let t = s.subrange(start as int, n);
            assert forall|j: int| end - start <= j < t.len() implies is_whitespace_char(
                #[trigger] t[j],
            ) by {
                assert(flags@[j + start]);
            }
            assert(!flags@[end - 1]);
            assert(t[end - start - 1] == s[end - 1]);
            lemma_trim_end(t, end - start);
            assert(t.subrange(0, end - start) =~= s.subrange(start as int, end as int));
        }
    }
    string_of(chars, start, end)
}

/// The names that `required` asks for.
pub fn parse_required(required: &str) -> (r: Vec<String>)
    ensures
        strings_view(r@) == required_names(required@),
{
    let chars = chars_of(required);
    let mut names: Vec<String> = Vec::new();
    let mut piece: Vec<char> = Vec::new();
    let mut i: usize = 0;
    while i < chars.len()
        invariant
            i <= chars@.len(),
            chars@ == required@,
            split_commas(chars@.subrange(0, i as int)).len() == names@.len() + 1,
            split_commas(chars@.subrange(0, i as int)).last() == piece@,
            forall|j: int|
                0 <= j < names@.len() ==> (#[trigger] names@[j])@ == trim(
                    split_commas(chars@.subrange(0, i as int))[j],
                ),
        decreases chars@.len() - i,
    {
        let ghost prefix = chars@.subrange(0, i as int);
        let ghost next = chars@.subrange(0, i + 1);
        assert(next.drop_last() =~= prefix);
        assert(next.last() == chars@[i as int]);
        let c = chars[i];
        if c == ',' {
            names.push(trim_chars(&piece));
            piece = Vec::new();
        } else {
            piece.push(c);
        }
        i = i + 1;
    }
    assert(chars@.subrange(0, i as int) =~= chars@);
    names.push(trim_chars(&piece));
    assert(strings_view(names@) =~= required_names(required@));
    names
}

impl StoreView {
    /// The store after a fresh one was initialized with `env` as its first
    /// environment.
    pub open spec fn init_with_environment(self, env: Seq<char>) -> StoreView {
        if env == default_environment() {
            self.initialized()
        } else {
            self.initialized().with_environment(env, Map::empty())
        }
    }

    /// The store after `key` was set to `value` in `env`.
    pub open spec fn set_variable(
        self,
        key: Seq<char>,
        value: Seq<char>,
        env: Seq<char>,
    ) -> StoreView {
        self.loaded(env).with_environment(env, self.variables_of(env).insert(key, value))
    }

    /// The store after `key` was taken out of `env`.
    pub open spec fn unset_variable(self, key: Seq<char>, env: Seq<char>) -> StoreView {
        self.with_environment(env, self.variables_of(env).remove(key))
    }

    /// The store after `env` became the current environment.
    pub open spec fn switch_environment(self, env: Seq<char>) -> StoreView {
        self.loaded(env).with_global(env)
    }

    /// The environment that a command works on: the one it names, else the
    /// current one.
    pub open spec fn target_environment(self, env: Option<Seq<char>>) -> Seq<char> {
        match env {
            Some(name) => name,
            None => self.global->Some_0,
        }
    }
}

/// A variable that was set is there when the same environment is read
/// next: the read succeeds without touching the store, finds the value
/// under the key, and the sorted list holds the pair.
pub proof fn lemma_set_then_list(
    store: StoreView,
    key: Seq<char>,
    value: Seq<char>,
    env: Seq<char>,
)
    requires
        store.wf(),
        store.is_initialized(),
        valid_environment_name(env),
    ensures
        store.set_variable(key, value, env).can_load(env),
        store.set_variable(key, value, env).loaded(env) == store.set_variable(key, value, env),
        store.set_variable(key, value, env).variables_of(env).contains_key(key),
        store.set_variable(key, value, env).variables_of(env)[key] == value,
        is_listing(
            listing(store.set_variable(key, value, env).variables_of(env)),
            store.set_variable(key, value, env).variables_of(env),
        ),
        exists|i: int|
            0 <= i < listing(store.set_variable(key, value, env).variables_of(env)).len()
                && #[trigger] listing(store.set_variable(key, value, env).variables_of(env))[i]
                == (key, value),
{
    let before = store.variables_of(env);
    assert(before.dom().finite()) by {
        if !store.environments.contains_key(env) {
            assert(before =~= Map::<Seq<char>, Seq<char>>::empty());
        }
    }
    let after = store.set_variable(key, value, env).variables_of(env);
    assert(after == before.insert(key, value));
    lemma_listing_exists(after);
    let list = listing(after);
    assert(after.dom().contains(key));
    let i = choose|i: int| 0 <= i < pair_keys(list).len() && pair_keys(list)[i] == key;
    assert(list[i].0 == key);
    assert(after[list[i].0] == list[i].1);
    assert(list[i] == (key, value));
}

/// The name in an optional string.
pub open spec fn optional_name(name: Option<&str>) -> Option<Seq<char>> {
    match name {
        Some(n) => Some(n@),
        None => None,
    }
}

/// The commands, on the store they work on.
#[derive(Debug)]
pub struct EnvMatchCommands {
    config_manager: ConfigManager,
}

impl View for EnvMatchCommands {
    type V = StoreView;

    closed spec fn view(&self) -> StoreView {
        self.config_manager@
    }
}

impl EnvMatchCommands {
    /// The store of the commands is a well-formed store.
    pub proof fn lemma_view_wf(&self)
        ensures
            self@.wf(),
    {
        self.config_manager.lemma_view_wf();
    }

    /// The commands on the store `config_manager`.
    pub fn with_config_manager(config_manager: ConfigManager) -> (r: Self)
        ensures
            r@ == config_manager@,
    {
        EnvMatchCommands { config_manager }
    }

    /// The store the commands work on.
    pub fn config_manager(&self) -> (r: &ConfigManager)
        ensures
            r@ == self@,
    {
        &self.config_manager
    }

    /// Hands out the writes that the store has recorded, oldest first, and
    /// forgets them.
    pub fn take_pending_writes(&mut self) -> (r: Vec<StoreWrite>)
        ensures
            r@.map_values(|w: StoreWrite| w@) == old(self)@.pending,
            final(self)@ == (StoreView { pending: Seq::empty(), ..old(self)@ }),
    {
        self.config_manager.take_pending_writes()
    }

    /// Initializes the store and creates `env_name` beside the default
    /// environment. The current environment is the default one either way.
    /// Where the name is refused the store stays initialized.
    pub fn init_with_environment(&mut self, env_name: &str) -> (r: Result<(), EnvMatchError>)
        ensures
            match r {
                Ok(_) => {
                    &&& !old(self)@.is_initialized()
                    &&& env_name@ == default_environment() || valid_environment_name(env_name@)
                    &&& final(self)@ == old(self)@.init_with_environment(env_name@)
                },
                Err(e) => if old(self)@.is_initialized() {
                    e@ == EnvMatchErrorView::AlreadyInitialized && final(self)@ == old(self)@
                } else {
                    &&& env_name@ != default_environment()
                    &&& !valid_environment_name(env_name@)
                    &&& e@ == (EnvMatchErrorView::InvalidEnvironmentName { name: env_name@ })
                    &&& final(self)@ == old(self)@.initialized()
                },
            },
    {
        match self.config_manager.initialize() {
            Ok(_) => {},
            Err(e) => {
                return Err(e);
            },
        }
        match key_order(env_name, "development") {
            KeyOrder::Same => Ok(()),
            _ => self.config_manager.save_environment(env_name, &EnvConfig::default()),
        }
    }

    /// Whether the store is initialized.
    pub fn is_initialized(&self) -> (r: bool)
        ensures
            r == self@.is_initialized(),
    {
        self.config_manager.is_initialized()
    }

    /// Sets `key` to `value` in `env_name`, creating the environment if
    /// need be. This succeeds exactly on an initialized store and a valid
    /// name.
    pub fn set_variable(&mut self, key: &str, value: &str, env_name: &str) -> (r: Result<
        (),
        EnvMatchError,
    >)
        ensures
            match r {
                Ok(_) => {
                    &&& old(self)@.is_initialized()
                    &&& valid_environment_name(env_name@)
                    &&& final(self)@ == old(self)@.set_variable(key@, value@, env_name@)
                },
                Err(e) => {
                    &&& !(old(self)@.is_initialized() && valid_environment_name(env_name@))
                    &&& e@ == old(self)@.load_error(env_name@)
                    &&& final(self)@ == old(self)@
                },
            },
    {
        if !self.config_manager.is_initialized() {
            return Err(EnvMatchError::NotInitialized);
        }
        match self.config_manager.validate_environment_name(env_name) {
            Ok(_) => {},
            Err(e) => {
                return Err(e);
            },
        }
        let mut env_config = match self.config_manager.load_environment(env_name) {
            Ok(config) => config,
            Err(e) => {
                return Err(e);
            },
        };
        let ghost before = env_config@;
        env_config.variables.insert(String::from_str(key), String::from_str(value));
        assert(env_config@ =~= before.insert(key@, value@));
        self.config_manager.save_environment(env_name, &env_config)
    }

    /// The value of `key` in `env_name`. An environment that does not exist
    /// is created on the way, and then holds no variable.
    pub fn get_variable(&mut self, key: &str, env_name: &str) -> (r: Result<String, EnvMatchError>)
        ensures
            match r {
                Ok(value) => {
                    &&& old(self)@.can_load(env_name@)
                    &&& old(self)@.variables_of(env_name@).contains_key(key@)
                    &&& value@ == old(self)@.variables_of(env_name@)[key@]
                    &&& final(self)@ == old(self)@
                },
                Err(e) => if old(self)@.can_load(env_name@) {
                    &&& !old(self)@.variables_of(env_name@).contains_key(key@)
                    &&& e@ == (EnvMatchErrorView::VariableNotFound { key: key@, env: env_name@ })
                    &&& final(self)@ == old(self)@.loaded(env_name@)
                } else {
                    e@ == old(self)@.load_error(env_name@) && final(self)@ == old(self)@
                },
            },
    {
        let env_config = match self.config_manager.load_environment(env_name) {
            Ok(config) => config,
            Err(e) => {
                return Err(e);
            },
        };
        match env_config.variables.get(key) {
            Some(value) => Ok(value.clone()),
            None => Err(
                EnvMatchError::VariableNotFound {
                    key: String::from_str(key),
                    env: String::from_str(env_name),
                },
            ),
        }
    }

    /// Takes `key` out of `env_name`. A key that is not there is an error,
    /// and so is a name that the environment cannot be saved under.
    pub fn unset_variable(&mut self, key: &str, env_name: &str) -> (r: Result<(), EnvMatchError>)
        ensures
            match r {
                Ok(_) => {
                    &&& old(self)@.can_load(env_name@)
                    &&& old(self)@.variables_of(env_name@).contains_key(key@)
                    &&& valid_environment_name(env_name@)
                    &&& final(self)@ == old(self)@.unset_variable(key@, env_name@)
                },
                Err(e) => if !old(self)@.can_load(env_name@) {
                    e@ == old(self)@.load_error(env_name@) && final(self)@ == old(self)@
                } else if !old(self)@.variables_of(env_name@).contains_key(key@) {
                    &&& e@ == (EnvMatchErrorView::VariableNotFound { key: key@, env: env_name@ })
                    &&& final(self)@ == old(self)@.loaded(env_name@)
                } else {
                    &&& !valid_environment_name(env_name@)
                    &&& e@ == (EnvMatchErrorView::InvalidEnvironmentName { name: env_name@ })
                    &&& final(self)@ == old(self)@
                },
            },
    {
        let mut env_config = match self.config_manager.load_environment(env_name) {
            Ok(config) => config,
            Err(e) => {
                return Err(e);
            },
        };
        let ghost before = env_config@;
        match env_config.variables.remove(key) {
            Some(_) => {
                assert(env_config@ =~= before.remove(key@));
                self.config_manager.save_environment(env_name, &env_config)
            },
            None => Err(
                EnvMatchError::VariableNotFound {
                    key: String::from_str(key),
                    env: String::from_str(env_name),
                },
            ),
        }
    }

    /// Makes `env_name` the current environment, creating it if need be.
    pub fn switch_environment(&mut self, env_name: &str) -> (r: Result<(), EnvMatchError>)
        ensures
            match r {
                Ok(_) => old(self)@.can_load(env_name@) && final(self)@
                    == old(self)@.switch_environment(env_name@),
                Err(e) => {
                    &&& !old(self)@.can_load(env_name@)
                    &&& e@ == old(self)@.load_error(env_name@)
                    &&& final(self)@ == old(self)@
                },
            },
    {
        match self.config_manager.load_environment(env_name) {
            Ok(_) => {},
            Err(e) => {
                return Err(e);
            },
        }
        let mut config = match self.config_manager.load_global_config() {
            Ok(config) => config,
            Err(e) => {
                return Err(e);
            },
        };
        config.current_environment = String::from_str(env_name);
        self.config_manager.save_global_config(&config)
    }

    /// The variables of `env_name`, or of the current environment where no
    /// name is given, sorted by key. An environment that does not exist is
    /// created on the way.
    pub fn list_variables(&mut self, env_name: Option<&str>) -> (r: Result<
        Vec<(String, String)>,
        EnvMatchError,
    >)
        ensures
            match r {
                Ok(list) => {
                    let name = old(self)@.target_environment(optional_name(env_name));
                    &&& old(self)@.can_load(name)
                    &&& is_listing(pairs_view(list@), old(self)@.variables_of(name))
                    &&& pairs_view(list@) == listing(old(self)@.variables_of(name))
                    &&& final(self)@ == old(self)@.loaded(name)
                },
                Err(e) => {
                    let name = old(self)@.target_environment(optional_name(env_name));
                    &&& !old(self)@.is_initialized() || !old(self)@.can_load(name)
                    &&& e@ == old(self)@.load_error(name)
                    &&& final(self)@ == old(self)@
                },
            },
    {
        let config = match self.config_manager.load_global_config() {
            Ok(config) => config,
            Err(e) => {
                return Err(e);
            },
        };
        let name = match env_name {
            Some(n) => String::from_str(n),
            None => config.current_environment,
        };
        let env_config = match self.config_manager.load_environment(name.as_str()) {
            Ok(config) => config,
            Err(e) => {
                return Err(e);
            },
        };
        let keys = env_config.variables.keys();
        let ghost variables = env_config@;
        let mut list: Vec<(String, String)> = Vec::new();
        let mut i: usize = 0;
        while i < keys.len()
            invariant
                i <= keys@.len(),
                list@.len() == i,
                variables == env_config@,
                is_key_listing(strings_view(keys@), env_config.variables@.dom()),
                forall|j: int|
                    0 <= j < i ==> (#[trigger] list@[j]).0@ == keys@[j]@ && list@[j].1@
                        == variables[keys@[j]@],
            decreases keys@.len() - i,
        {
            assert(env_config.variables@.dom().contains(strings_view(keys@)[i as int]));
            match env_config.variables.get(keys[i].as_str()) {
                Some(value) => {
                    list.push((keys[i].clone(), value.clone()));
                },
                None => {
                    assert(false);
                },
            }
            i = i + 1;
        }
        proof {
            let out = pairs_view(list@);
            assert(pair_keys(out) =~= strings_view(keys@));
            assert(variables.dom() =~= env_config.variables@.dom());
            assert forall|j: int| 0 <= j < out.len() implies variables[out[j].0] == (
            #[trigger] out[j]).1 by {
                assert(list@[j].0@ == keys@[j]@);
            }
            lemma_listing_is(out, variables);
        }
        Ok(list)
    }

    /// The name of the current environment.
    pub fn show_current_environment(&self) -> (r: Result<String, EnvMatchError>)
        ensures
            match r {
                Ok(name) => self@.global == Some(name@),
                Err(e) => !self@.is_initialized() && e@ == EnvMatchErrorView::NotInitialized,
            },
    {
        match self.config_manager.load_global_config() {
            Ok(config) => Ok(config.current_environment),
            Err(e) => Err(e),
        }
    }

    /// Checks the current environment against `required`, a list of names
    /// between commas. Without a list there is nothing to miss.
    pub fn validate_environment(&mut self, required: Option<&str>) -> (r: Result<
        (),
        EnvMatchError,
    >)
        ensures
            match r {
                Ok(_) => {
                    let name = old(self)@.global->Some_0;
                    &&& old(self)@.can_load(name)
                    &&& final(self)@ == old(self)@.loaded(name)
                    &&& required matches Some(list) ==> missing_names(
                        required_names(list@),
                        old(self)@.variables_of(name),
                    ).len() == 0
                },
                Err(e) => {
                    let name = old(self)@.global->Some_0;
                    if !old(self)@.can_load(name) {
                        e@ == old(self)@.load_error(name) && final(self)@ == old(self)@
                    } else {
                        &&& required matches Some(list) && missing_names(
                            required_names(list@),
                            old(self)@.variables_of(name),
                        ).len() > 0 && e@ == (EnvMatchErrorView::MissingRequiredVariables {
                            env: name,
                            variables: missing_names(
                                required_names(list@),
                                old(self)@.variables_of(name),
                            ),
                        })
                        &&& final(self)@ == old(self)@.loaded(name)
                    }
                },
            },
    {
        let config = match self.config_manager.load_global_config() {
            Ok(config) => config,
            Err(e) => {
                return Err(e);
            },
        };
        let env_config = match self.config_manager.load_environment(
            config.current_environment.as_str(),
        ) {
            Ok(config) => config,
            Err(e) => {
                return Err(e);
            },
        };
        match required {
            Some(required_vars) => {
                let names = parse_required(required_vars);
                let ghost wanted = strings_view(names@);
                let ghost variables = env_config@;
                let mut missing: Vec<String> = Vec::new();
                let mut i: usize = 0;
                while i < names.len()
                    invariant
                        i <= names@.len(),
                        wanted == strings_view(names@),
                        variables == env_config@,
                        strings_view(missing@) == missing_names(
                            wanted.subrange(0, i as int),
                            variables,
                        ),
                    decreases names@.len() - i,
                {
                    let ghost next = wanted.subrange(0, i + 1);
                    assert(next.drop_last() =~= wanted.subrange(0, i as int));
                    assert(next.last() == names@[i as int]@);
                    assert(variables.dom() =~= env_config.variables@.dom());
                    let ghost old_missing = strings_view(missing@);
                    if !env_config.variables.contains_key(names[i].as_str()) {
                        missing.push(names[i].clone());
                        assert(strings_view(missing@) =~= old_missing.push(names@[i as int]@));
                    }
                    i = i + 1;
                }
                assert(wanted.subrange(0, i as int) =~= wanted);
                if missing.len() == 0 {
                    Ok(())
                } else {
                    Err(
                        EnvMatchError::MissingRequiredVariables {
                            env: config.current_environment,
                            variables: missing,
                        },
                    )
                }
            },
            None => Ok(()),
        }
    }

    /// The names of the environments of an initialized store, in ascending
    /// order.
    pub fn list_environments(&self) -> (r: Result<Vec<String>, EnvMatchError>)
        ensures
            match r {
                Ok(names) => self@.is_initialized() && is_key_listing(
                    strings_view(names@),
                    self@.environments.dom(),
                ),
                Err(e) => !self@.is_initialized() && e@ == EnvMatchErrorView::NotInitialized,
            },
    {
        let environments = match self.config_manager.list_environments() {
            Ok(names) => names,
            Err(e) => {
                return Err(e);
            },
        };
        match self.config_manager.load_global_config() {
            Ok(_) => {},
            Err(e) => {
                return Err(e);
            },
        }
        Ok(environments)
    }
}

} // verus!
