//! The settings that the process takes from its environment.

use vstd::prelude::*;

verus! {

/// The variable that holds the connection string of the database.
pub const URI_VARIABLE: &'static str = "MONGODB_URI";

/// The variable that holds the name of the database.
pub const NAME_VARIABLE: &'static str = "MONGODB_NAME";

/// The connection string that is used where none is set.
pub const DEFAULT_URI: &'static str = "mongodb://localhost:27017";

/// The address on which the service listens.
pub const LISTEN_HOST: &'static str = "127.0.0.1";

/// The port on which the service listens.
pub const LISTEN_PORT: u16 = 8080;

/// A setting without which the process cannot go on.
#[derive(Clone, Copy, Debug, PartialEq, Eq, Structural)]
pub enum ConfigError {
    /// No database is named.
    MissingDatabaseName,
}

impl ConfigError {
    /// The text that describes the error.
    pub open spec fn spec_message(self) -> Seq<char> {
        match self {
            ConfigError::MissingDatabaseName => "MONGODB_NAME must be set"@,
        }
    }

    /// The text that describes the error.
    pub fn message(self) -> (text: String)
        ensures
            text@ == self.spec_message(),
    {
        match self {
            ConfigError::MissingDatabaseName => String::from_str("MONGODB_NAME must be set"),
        }
    }
}

/// The connection string: the configured one, or the default where none is
/// configured.
pub fn database_uri(configured: Option<String>) -> (uri: String)
    ensures
        uri@ == match configured {
            Some(value) => value@,
            None => DEFAULT_URI@,
        },
{
    match configured {
        Some(value) => value,
        None => String::from_str(DEFAULT_URI),
    }
}

/// The name of the database: the configured one. There is no default, so a
/// missing name is an error.
pub fn database_name(configured: Option<String>) -> (name: Result<String, ConfigError>)
    ensures
        match configured {
            Some(value) => name.is_ok() && name.unwrap()@ == value@,
            None => name == Err::<String, ConfigError>(ConfigError::MissingDatabaseName),
        },
{
    match configured {
        Some(value) => Ok(value),
        None => Err(ConfigError::MissingDatabaseName),
    }
}

} // verus!
