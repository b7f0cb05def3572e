//! Deployment environments.

use vstd::prelude::*;
use vstd::string::StringExecFns;

use crate::text::{eq_ignore_ascii_case, same_but_for_case, trim, trimmed};

verus! {

/// Where an application runs.
#[derive(Clone, Copy, Debug, PartialEq, Eq, Hash, Structural)]
pub enum Environment {
    Production,
    Staging,
    Development,
    Local,
    Test,
}

/// The name of an environment.
pub open spec fn environment_text(environment: Environment) -> Seq<char> {
    match environment {
        Environment::Production => "production"@,
        Environment::Staging => "staging"@,
        Environment::Development => "development"@,
        Environment::Local => "local"@,
        Environment::Test => "test"@,
    }
}

impl Environment {
    /// Every environment.
    pub const ALL: [Environment; 5] = [
        Environment::Production,
        Environment::Staging,
        Environment::Development,
        Environment::Local,
        Environment::Test,
    ];

    /// The environments that serve users.
    pub const DEPLOYED: [Environment; 2] = [Environment::Production, Environment::Staging];

    /// The name of the environment.
    pub fn as_str(self) -> (text: &'static str)
        ensures
            text@ == environment_text(self),
    {
        match self {
            Environment::Production => "production",
            Environment::Staging => "staging",
            Environment::Development => "development",
            Environment::Local => "local",
            Environment::Test => "test",
        }
    }

    /// The name of the environment, as a text of its own.
    pub fn to_string(self) -> (text: String)
        ensures
            text@ == environment_text(self),
    {
        self.as_str().to_owned()
    }

    /// Finds the environment with a name, without regard to white space around it and to the case
    /// of its letters.
    pub fn parse(value: &str) -> (environment: Result<Environment, ParseEnvironmentError>)
        ensures
            match environment {
                Ok(environment) => same_but_for_case(
                    trimmed(value@),
                    environment_text(environment),
                ),
                Err(error) => error@ == trimmed(value@) && forall|environment: Environment|
                    !same_but_for_case(trimmed(value@), #[trigger] environment_text(environment)),
            },
    {
        let name: &str = trim(value);
        if eq_ignore_ascii_case(name, "production") {
            Ok(Environment::Production)
        } else if eq_ignore_ascii_case(name, "staging") {
            Ok(Environment::Staging)
        } else if eq_ignore_ascii_case(name, "development") {
            Ok(Environment::Development)
        } else if eq_ignore_ascii_case(name, "local") {
            Ok(Environment::Local)
        } else if eq_ignore_ascii_case(name, "test") {
            Ok(Environment::Test)
        } else {
            Err(ParseEnvironmentError(name.to_owned()))
        }
    }
}

impl std::str::FromStr for Environment {
    type Err = ParseEnvironmentError;

    fn from_str(value: &str) -> (environment: Result<Environment, ParseEnvironmentError>)
        ensures
            match environment {
                Ok(environment) => same_but_for_case(
                    trimmed(value@),
                    environment_text(environment),
                ),
                Err(error) => error@ == trimmed(value@) && forall|environment: Environment|
                    !same_but_for_case(trimmed(value@), #[trigger] environment_text(environment)),
            },
    {
        Environment::parse(value)
    }
}

/// A name answers to one environment at most.
pub proof fn lemma_environment_texts_differ(name: Seq<char>, one: Environment, other: Environment)
    requires
        same_but_for_case(name, environment_text(one)),
        same_but_for_case(name, environment_text(other)),
    ensures
        one == other,
{
    reveal_strlit("production");
    reveal_strlit("staging");
    reveal_strlit("development");
    reveal_strlit("local");
    reveal_strlit("test");
}

/// A text that is not the name of an environment.
#[derive(Debug, PartialEq, Eq)]
pub struct ParseEnvironmentError(String);

impl Clone for ParseEnvironmentError {
    fn clone(&self) -> (copy: Self)
        ensures
            copy@ == self@,
    {
        ParseEnvironmentError(self.0.clone())
    }
}

impl View for ParseEnvironmentError {
    type V = Seq<char>;

    closed spec fn view(&self) -> Seq<char> {
        self.0@
    }
}

impl ParseEnvironmentError {
    /// Says which text was not understood.
    pub fn to_string(&self) -> (text: String)
        ensures
            text@ == "unsupported environment `"@ + self@ + "`"@,
    {
        "unsupported environment `".to_owned().concat(self.0.as_str()).concat("`")
    }
}

} // verus!
