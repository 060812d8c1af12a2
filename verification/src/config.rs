//! The store: one global configuration that names the current environment,
//! and the environments themselves, each a set of variables.
//!
//! `ConfigManager` is an image of the store's directory held in memory. It
//! answers every question from that image and records, in order, each file
//! it would write, so that whoever owns the directory can carry the writes
//! out.

use crate::error::{EnvMatchError, EnvMatchErrorView};
use crate::string_map::{is_key_listing, strings_view, StringMap};
use crate::text::{chars_of, is_alphanumeric_char};
use vstd::prelude::*;

verus! {

/// The variables of one environment.
#[derive(Debug, PartialEq, Eq)]
pub struct EnvConfig {
    pub variables: StringMap<String>,
}

impl View for EnvConfig {
    type V = Map<Seq<char>, Seq<char>>;

    open spec fn view(&self) -> Map<Seq<char>, Seq<char>> {
        self.variables@.map_values(|v: String| v@)
    }
}

impl Default for EnvConfig {
    /// The environment without variables.
    fn default() -> (r: Self)
        ensures
            r@ == Map::<Seq<char>, Seq<char>>::empty(),
    {
        let r = EnvConfig { variables: StringMap::new() };
        assert(r@ =~= Map::<Seq<char>, Seq<char>>::empty());
        r
    }
}

impl Clone for EnvConfig {
    fn clone(&self) -> (r: Self)
        ensures
            r@ == self@,
    {
        EnvConfig { variables: self.variables.duplicate() }
    }
}

/// The global configuration: the name of the current environment.
#[derive(Debug, PartialEq, Eq)]
pub struct GlobalConfig {
    pub current_environment: String,
}

impl View for GlobalConfig {
    type V = Seq<char>;

    open spec fn view(&self) -> Seq<char> {
        self.current_environment@
    }
}

impl Default for GlobalConfig {
    /// The configuration with an empty name.
    fn default() -> (r: Self)
        ensures
            r@ == Seq::<char>::empty(),
    {
        GlobalConfig { current_environment: String::new() }
    }
}

impl Clone for GlobalConfig {
    fn clone(&self) -> (r: Self)
        ensures
            r@ == self@,
    {
        GlobalConfig { current_environment: self.current_environment.clone() }
    }
}

/// One file that the store has written since its writes were last taken.
#[derive(Debug, PartialEq, Eq)]
pub enum StoreWrite {
    /// The global configuration file, with this content.
    GlobalConfig(GlobalConfig),
    /// The file of the environment `name`, with this content.
    Environment { name: String, config: EnvConfig },
}

/// A write by its contents.
pub enum StoreWriteView {
    GlobalConfig { current_environment: Seq<char> },
    Environment { name: Seq<char>, variables: Map<Seq<char>, Seq<char>> },
}

impl View for StoreWrite {
    type V = StoreWriteView;

    open spec fn view(&self) -> StoreWriteView {
        match self {
            StoreWrite::GlobalConfig(config) => StoreWriteView::GlobalConfig {
                current_environment: config@,
            },
            StoreWrite::Environment { name, config } => StoreWriteView::Environment {
                name: name@,
                variables: config@,
            },
        }
    }
}

/// Whether `c` may stand in an environment name.
pub open spec fn name_char_allowed(c: char) -> bool {
    is_alphanumeric_char(c) || c == '_' || c == '-'
}

/// Whether `name` may name an environment: each character is alphanumeric,
/// `_` or `-`. The empty name passes.
pub open spec fn valid_environment_name(name: Seq<char>) -> bool {
    forall|i: int| 0 <= i < name.len() ==> name_char_allowed(#[trigger] name[i])
}

/// Whether a character that is `alphanumeric` or not may stand in an
/// environment name.
pub fn allowed_in_name(c: char, alphanumeric: bool) -> (r: bool)
    ensures
        r == (alphanumeric || c == '_' || c == '-'),
{
    alphanumeric || c == '_' || c == '-'
}

/// The name of the environment that a fresh store starts with.
pub open spec fn default_environment() -> Seq<char> {
    "development"@
}

/// The store as a mathematical value.
pub struct StoreView {
    /// The directory the store lives in.
    pub base_dir: Seq<char>,
    /// The current environment's name, once the store is initialized.
    pub global: Option<Seq<char>>,
    /// The variables of each environment, by its name.
    pub environments: Map<Seq<char>, Map<Seq<char>, Seq<char>>>,
    /// The files written and not yet taken, oldest first.
    pub pending: Seq<StoreWriteView>,
}

impl StoreView {
    /// A store holds finitely many environments, each with finitely many
    /// variables.
    pub open spec fn wf(self) -> bool {
        &&& self.environments.dom().finite()
        &&& forall|name: Seq<char>| #[trigger]
            self.environments.contains_key(name) ==> self.environments[name].dom().finite()
    }

    /// A store is initialized once it has a global configuration.
    pub open spec fn is_initialized(self) -> bool {
        self.global is Some
    }

    /// The store after `variables` were saved as environment `name`.
    pub open spec fn with_environment(
        self,
        name: Seq<char>,
        variables: Map<Seq<char>, Seq<char>>,
    ) -> StoreView {
        StoreView {
            environments: self.environments.insert(name, variables),
            pending: self.pending.push(StoreWriteView::Environment { name, variables }),
            ..self
        }
    }

    /// The store after `current` was saved as the current environment.
    pub open spec fn with_global(self, current: Seq<char>) -> StoreView {
        StoreView {
            global: Some(current),
            pending: self.pending.push(
                StoreWriteView::GlobalConfig { current_environment: current },
            ),
            ..self
        }
    }

    /// The store after its initialization: the default environment is
    /// current and exists, empty.
    pub open spec fn initialized(self) -> StoreView {
        self.with_global(default_environment()).with_environment(
            default_environment(),
            Map::empty(),
        )
    }

    /// Whether the environment `name` can be loaded: the store is
    /// initialized, and the environment exists or can be created under that
    /// name.
    pub open spec fn can_load(self, name: Seq<char>) -> bool {
        self.is_initialized() && (self.environments.contains_key(name) || valid_environment_name(
            name,
        ))
    }

    /// Why `name` cannot be loaded, where it cannot.
    pub open spec fn load_error(self, name: Seq<char>) -> EnvMatchErrorView {
        if !self.is_initialized() {
            EnvMatchErrorView::NotInitialized
        } else {
            EnvMatchErrorView::InvalidEnvironmentName { name }
        }
    }

    /// The store after `name` was loaded: an environment that did not exist
    /// has been created, empty.
    pub open spec fn loaded(self, name: Seq<char>) -> StoreView {
        if self.environments.contains_key(name) {
            self
        } else {
            self.with_environment(name, Map::empty())
        }
    }

    /// The variables of `name`; none where it does not exist.
    pub open spec fn variables_of(self, name: Seq<char>) -> Map<Seq<char>, Seq<char>> {
        if self.environments.contains_key(name) {
            self.environments[name]
        } else {
            Map::empty()
        }
    }

    /// Saving or creating an environment with finitely many variables keeps a
    /// store well-formed, and so does loading one.
    pub proof fn lemma_steps_keep_wf(
        store: StoreView,
        name: Seq<char>,
        variables: Map<Seq<char>, Seq<char>>,
    )
        requires
            store.wf(),
            variables.dom().finite(),
        ensures
            store.with_environment(name, variables).wf(),
            store.loaded(name).wf(),
            store.with_global(name).wf(),
            store.loaded(name).with_global(name).wf(),
            store.loaded(name).with_environment(name, variables).wf(),
    {
        let empty = Map::<Seq<char>, Seq<char>>::empty();
        assert(empty.dom().finite());
        let saved = store.with_environment(name, variables);
        assert forall|n: Seq<char>| #[trigger]
            saved.environments.contains_key(n) implies saved.environments[n].dom().finite() by {
            if n != name {
                assert(store.environments.contains_key(n));
            }
        }
        let created = store.with_environment(name, empty);
        assert forall|n: Seq<char>| #[trigger]
            created.environments.contains_key(n) implies created.environments[n].dom().finite() by {
            if n != name {
                assert(store.environments.contains_key(n));
            }
        }
        let resaved = store.loaded(name).with_environment(name, variables);
        assert forall|n: Seq<char>| #[trigger]
            resaved.environments.contains_key(n) implies resaved.environments[n].dom().finite() by {
            if n != name {
                assert(store.environments.contains_key(n));
            }
        }
    }
}

/// The image of a store's directory.
#[derive(Debug)]
pub struct ConfigManager {
    base_dir: String,
    global: Option<GlobalConfig>,
    environments: StringMap<EnvConfig>,
    pending: Vec<StoreWrite>,
}

impl View for ConfigManager {
    type V = StoreView;

    closed spec fn view(&self) -> StoreView {
        StoreView {
            base_dir: self.base_dir@,
            global: match self.global {
                Some(config) => Some(config@),
                None => None,
            },
            environments: self.environments@.map_values(|e: EnvConfig| e@),
            pending: self.pending@.map_values(|w: StoreWrite| w@),
        }
    }
}

impl ConfigManager {
    /// The image of a store is a well-formed store.
    pub proof fn lemma_view_wf(&self)
        ensures
            self@.wf(),
    {
        self.environments.lemma_view_finite();
        assert(self@.environments.dom() =~= self.environments@.dom());
        assert forall|name: Seq<char>| #[trigger]
            self@.environments.contains_key(name) implies self@.environments[name].dom().finite() by {
            let config = self.environments@[name];
            config.variables.lemma_view_finite();
            assert(config@.dom() =~= config.variables@.dom());
        }
    }

    /// The image of an empty directory `base_dir`: no configuration, no
    /// environment, nothing written.
    pub fn with_base_dir(base_dir: String) -> (r: Self)
        ensures
            r@ == (StoreView {
                base_dir: base_dir@,
                global: None,
                environments: Map::empty(),
                pending: Seq::empty(),
            }),
    {
        let r = ConfigManager {
            base_dir,
            global: None,
            environments: StringMap::new(),
            pending: Vec::new(),
        };
        assert(r@.environments =~= Map::empty());
        assert(r@.pending =~= Seq::empty());
        r
    }

    /// Puts `config` in the image as the global configuration found in the
    /// directory. Nothing is recorded as written.
    pub fn restore_global_config(&mut self, config: GlobalConfig)
        ensures
            final(self)@ == (StoreView { global: Some(config@), ..old(self)@ }),
    {
        self.global = Some(config);
    }

    /// Puts `config` in the image as the environment `name` found in the
    /// directory, whatever the name. Nothing is recorded as written.
    pub fn restore_environment(&mut self, name: String, config: EnvConfig)
        ensures
            final(self)@ == (StoreView {
                environments: old(self)@.environments.insert(name@, config@),
                ..old(self)@
            }),
    {
        self.environments.insert(name, config);
        assert(self@.environments =~= old(self)@.environments.insert(name@, config@));
    }

    /// Hands out the writes recorded so far, oldest first, and forgets them.
    pub fn take_pending_writes(&mut self) -> (r: Vec<StoreWrite>)
        ensures
            r@.map_values(|w: StoreWrite| w@) == old(self)@.pending,
            final(self)@ == (StoreView { pending: Seq::empty(), ..old(self)@ }),
    {
        let mut taken: Vec<StoreWrite> = Vec::new();
        std::mem::swap(&mut taken, &mut self.pending);
        assert(self@.pending =~= Seq::empty());
        taken
    }

    /// Whether the store has a global configuration.
    pub fn is_initialized(&self) -> (r: bool)
        ensures
            r == self@.is_initialized(),
    {
        self.global.is_some()
    }

    /// Initializes the store: the default environment becomes current and
    /// is created empty. A store that is initialized already is left alone.
    pub fn initialize(&mut self) -> (r: Result<(), EnvMatchError>)
        ensures
            match r {
                Ok(_) => !old(self)@.is_initialized() && final(self)@ == old(self)@.initialized(),
                Err(e) => old(self)@.is_initialized() && e@ == EnvMatchErrorView::AlreadyInitialized
                    && final(self)@ == old(self)@,
            },
    {
        if self.is_initialized() {
            return Err(EnvMatchError::AlreadyInitialized);
        }
        let config = GlobalConfig { current_environment: String::from_str("development") };
        let _ = self.save_global_config(&config);
        self.store_environment("development", &EnvConfig::default());
        Ok(())
    }

    /// The global configuration.
    pub fn load_global_config(&self) -> (r: Result<GlobalConfig, EnvMatchError>)
        ensures
            match r {
                Ok(config) => self@.global == Some(config@),
                Err(e) => !self@.is_initialized() && e@ == EnvMatchErrorView::NotInitialized,
            },
    {
        match &self.global {
            Some(config) => Ok(config.clone()),
            None => Err(EnvMatchError::NotInitialized),
        }
    }

    /// Saves `config` as the global configuration. This cannot fail.
    pub fn save_global_config(&mut self, config: &GlobalConfig) -> (r: Result<(), EnvMatchError>)
        ensures
            r is Ok,
            final(self)@ == old(self)@.with_global(config@),
    {
        self.global = Some(config.clone());
        self.pending.push(StoreWrite::GlobalConfig(config.clone()));
        assert(self@.pending =~= old(self)@.with_global(config@).pending);
        Ok(())
    }

    /// The environment `env_name`. One that does not exist yet is created
    /// empty first, under the rule for names.
    pub fn load_environment(&mut self, env_name: &str) -> (r: Result<EnvConfig, EnvMatchError>)
        ensures
            match r {
                Ok(config) => old(self)@.can_load(env_name@) && config@ == old(self)@.variables_of(
                    env_name@,
                ) && final(self)@ == old(self)@.loaded(env_name@),
                Err(e) => !old(self)@.can_load(env_name@) && e@ == old(self)@.load_error(env_name@)
                    && final(self)@ == old(self)@,
            },
    {
        if !self.is_initialized() {
            return Err(EnvMatchError::NotInitialized);
        }
        match self.environments.get(env_name) {
            Some(config) => {
                return Ok(config.clone());
            },
            None => {},
        }
        let new_env = EnvConfig::default();
        match self.save_environment(env_name, &new_env) {
            Ok(_) => Ok(new_env),
            Err(e) => Err(e),
        }
    }

    /// Saves `env_config` as the environment `env_name`, if the name is
    /// valid.
    pub fn save_environment(&mut self, env_name: &str, env_config: &EnvConfig) -> (r: Result<
        (),
        EnvMatchError,
    >)
        ensures
            match r {
                Ok(_) => valid_environment_name(env_name@) && final(self)@
                    == old(self)@.with_environment(env_name@, env_config@),
                Err(e) => !valid_environment_name(env_name@) && e@
                    == (EnvMatchErrorView::InvalidEnvironmentName { name: env_name@ })
                    && final(self)@ == old(self)@,
            },
    {
        match self.validate_environment_name(env_name) {
            Ok(_) => {},
            Err(e) => {
                return Err(e);
            },
        }
        self.store_environment(env_name, env_config);
        Ok(())
    }

    /// Saves `env_config` as the environment `env_name` without a look at
    /// the name.
    fn store_environment(&mut self, env_name: &str, env_config: &EnvConfig)
        ensures
            final(self)@ == old(self)@.with_environment(env_name@, env_config@),
    {
        self.environments.insert(String::from_str(env_name), env_config.clone());
        self.pending.push(
            StoreWrite::Environment { name: String::from_str(env_name), config: env_config.clone() },
        );
        assert(self@.environments =~= old(self)@.environments.insert(env_name@, env_config@));
        assert(self@.pending =~= old(self)@.with_environment(env_name@, env_config@).pending);
    }

    /// The names of the environments, in ascending order.
    pub fn list_environments(&self) -> (r: Result<Vec<String>, EnvMatchError>)
        ensures
            r is Ok,
            is_key_listing(strings_view(r->Ok_0@), self@.environments.dom()),
    {
        let names = self.environments.keys();
        assert(self@.environments.dom() =~= self.environments@.dom());
        Ok(names)
    }

    /// The path of the global configuration file.
    pub fn get_config_path(&self) -> (r: String)
        ensures
            r@ == self@.base_dir + "/"@ + "config.yaml"@,
    {
        let mut path = self.base_dir.clone();
        path.append("/");
        path.append("config.yaml");
        path
    }

    /// The path of the directory that holds the environment files.
    pub fn get_environments_dir(&self) -> (r: String)
        ensures
            r@ == self@.base_dir + "/"@ + "environments"@,
    {
        let mut path = self.base_dir.clone();
        path.append("/");
        path.append("environments");
        path
    }

    /// The path of the file of the environment `env_name`.
    pub fn get_env_path(&self, env_name: &str) -> (r: String)
        ensures
            r@ == self@.base_dir + "/"@ + "environments"@ + "/"@ + env_name@ + ".yaml"@,
    {
        let mut path = self.get_environments_dir();
        path.append("/");
        path.append(env_name);
        path.append(".yaml");
        path
    }

    /// Accepts `name` if each of its characters is alphanumeric, `_` or `-`.
    pub fn validate_environment_name(&self, name: &str) -> (r: Result<(), EnvMatchError>)
        ensures
            match r {
                Ok(_) => valid_environment_name(name@),
                Err(e) => !valid_environment_name(name@) && e@
                    == (EnvMatchErrorView::InvalidEnvironmentName { name: name@ }),
            },
    {
        let chars = chars_of(name);
        let mut i: usize = 0;
        while i < chars.len()
            invariant
                i <= chars@.len(),
                chars@ == name@,
                forall|j: int| 0 <= j < i ==> name_char_allowed(#[trigger] name@[j]),
            decreases chars@.len() - i,
        {
            let c = chars[i];
            if !allowed_in_name(c, c.is_alphanumeric()) {
                return Err(EnvMatchError::InvalidEnvironmentName { name: String::from_str(name) });
            }
            i = i + 1;
        }
        Ok(())
    }
}

} // verus!
