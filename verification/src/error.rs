//! The errors of the library and the text each one is reported with.

use crate::string_map::strings_view;
use vstd::prelude::*;

verus! {

/// What can go wrong in a command or in the interactive session.
#[derive(Debug)]
pub enum EnvMatchError {
    /// The store has no configuration yet.
    NotInitialized,
    /// The store was asked to initialize a second time.
    AlreadyInitialized,
    /// No variable `key` in environment `env`.
    VariableNotFound { key: String, env: String },
    /// A file of the store could not be read or written; `source` says why.
    ConfigReadError { source: String },
    /// A file of the store does not parse; `source` says why.
    YamlParseError { source: String },
    /// Variables that a validation asked for and `env` does not hold.
    MissingRequiredVariables { env: String, variables: Vec<String> },
    /// An environment name with a character that is neither alphanumeric,
    /// `_` nor `-`.
    InvalidEnvironmentName { name: String },
}

/// An error by the characters of its fields.
pub enum EnvMatchErrorView {
    NotInitialized,
    AlreadyInitialized,
    VariableNotFound { key: Seq<char>, env: Seq<char> },
    ConfigReadError { source: Seq<char> },
    YamlParseError { source: Seq<char> },
    MissingRequiredVariables { env: Seq<char>, variables: Seq<Seq<char>> },
    InvalidEnvironmentName { name: Seq<char> },
}

impl View for EnvMatchError {
    type V = EnvMatchErrorView;

    open spec fn view(&self) -> EnvMatchErrorView {
        match self {
            EnvMatchError::NotInitialized => EnvMatchErrorView::NotInitialized,
            EnvMatchError::AlreadyInitialized => EnvMatchErrorView::AlreadyInitialized,
            EnvMatchError::VariableNotFound { key, env } => EnvMatchErrorView::VariableNotFound {
                key: key@,
                env: env@,
            },
            EnvMatchError::ConfigReadError { source } => EnvMatchErrorView::ConfigReadError {
                source: source@,
            },
            EnvMatchError::YamlParseError { source } => EnvMatchErrorView::YamlParseError {
                source: source@,
            },
            EnvMatchError::MissingRequiredVariables {
                env,
                variables,
            } => EnvMatchErrorView::MissingRequiredVariables {
                env: env@,
                variables: strings_view(variables@),
            },
            EnvMatchError::InvalidEnvironmentName {
                name,
            } => EnvMatchErrorView::InvalidEnvironmentName { name: name@ },
        }
    }
}

/// The text that `Debug` formatting gives for a list of strings.
pub uninterp spec fn debug_list_text(items: Seq<Seq<char>>) -> Seq<char>;

/// `format!` with `{:?}` on a vector of strings writes the list in `Debug`
/// form. The text depends on the strings alone; no more is claimed of it.
#[verifier::external_body]
fn format_debug_list(items: &Vec<String>) -> (r: String)
    ensures
        r@ == debug_list_text(strings_view(items@)),
{
    format!("{:?}", items)
}

/// The error of an `Err`, by its view.
pub open spec fn error_view<T>(r: Result<T, EnvMatchError>) -> Option<EnvMatchErrorView> {
    match r {
        Ok(_) => None,
        Err(e) => Some(e@),
    }
}

impl EnvMatchErrorView {
    /// The message of an error, given the text `listed` in which its list of
    /// variables, if it has one, is written.
    pub open spec fn message_with(self, listed: Seq<char>) -> Seq<char> {
        match self {
            EnvMatchErrorView::NotInitialized => "envMatch not initialized. Run 'envMatch init' first"@,
            EnvMatchErrorView::AlreadyInitialized => "envMatch already initialized in this directory"@,
            EnvMatchErrorView::VariableNotFound { key, env } => "Variable '"@ + key
                + "' not found in environment '"@ + env + "'"@,
            EnvMatchErrorView::ConfigReadError { source } => "Failed to read config file: "@
                + source,
            EnvMatchErrorView::YamlParseError { source } => "Failed to parse YAML: "@ + source,
            EnvMatchErrorView::MissingRequiredVariables {
                env,
                variables,
            } => "Missing required variables in environment '"@ + env + "': "@ + listed,
            EnvMatchErrorView::InvalidEnvironmentName { name } => "Invalid environment name: '"@
                + name + "'. Environment names must be alphanumeric"@,
        }
    }

    /// The message of an error.
    pub open spec fn message(self) -> Seq<char> {
        match self {
            EnvMatchErrorView::MissingRequiredVariables { env, variables } => self.message_with(
                debug_list_text(variables),
            ),
            _ => self.message_with(Seq::empty()),
        }
    }
}

impl EnvMatchError {
    /// The message of this error, with `listed` standing for its list of
    /// variables where it has one.
    pub fn message_with(&self, listed: &str) -> (r: String)
        ensures
            r@ == self@.message_with(listed@),
    {
        match self {
            EnvMatchError::NotInitialized => String::from_str(
                "envMatch not initialized. Run 'envMatch init' first",
            ),
            EnvMatchError::AlreadyInitialized => String::from_str(
                "envMatch already initialized in this directory",
            ),
            EnvMatchError::VariableNotFound { key, env } => {
                let mut s = String::from_str("Variable '");
                s.append(key.as_str());
                s.append("' not found in environment '");
                s.append(env.as_str());
                s.append("'");
                s
            },
            EnvMatchError::ConfigReadError { source } => {
                let mut s = String::from_str("Failed to read config file: ");
                s.append(source.as_str());
                s
            },
            EnvMatchError::YamlParseError { source } => {
                let mut s = String::from_str("Failed to parse YAML: ");
                s.append(source.as_str());
                s
            },
            EnvMatchError::MissingRequiredVariables { env, variables } => {
                let mut s = String::from_str("Missing required variables in environment '");
                s.append(env.as_str());
                s.append("': ");
                s.append(listed);
                s
            },
            EnvMatchError::InvalidEnvironmentName { name } => {
                let mut s = String::from_str("Invalid environment name: '");
                s.append(name.as_str());
                s.append("'. Environment names must be alphanumeric");
                s
            },
        }
    }

    /// The message this error is reported with.
    pub fn message(&self) -> (r: String)
        ensures
            r@ == self@.message(),
    {
        match self {
            EnvMatchError::MissingRequiredVariables { env, variables } => {
                let listed = format_debug_list(variables);
                self.message_with(listed.as_str())
            },
            _ => self.message_with(""),
        }
    }
}

} // verus!
