//! The settings of the application, as plain values, and the few decisions
//! that are taken on them.

use crate::domain::{invalid_email_message, is_valid_email, SubscriberEmail};
use vstd::prelude::*;
use vstd::string::*;

verus! {

/// Where the application runs.
#[derive(Clone, Copy, Debug, PartialEq, Eq, Structural)]
pub enum Environment {
    Local,
    Production,
}

/// The name of an environment, as it is written in file names.
pub open spec fn environment_name(environment: Environment) -> Seq<char> {
    match environment {
        Environment::Local => "local"@,
        Environment::Production => "production"@,
    }
}

/// The lowercase equivalent of a text, as `str::to_lowercase` gives it.
pub uninterp spec fn lowercase_of(text: Seq<char>) -> Seq<char>;

/// Calls `str::to_lowercase`. The result is the lowercase equivalent of the
/// text by the rules of Unicode, which are not written out here: it is a
/// function of the text alone.
#[verifier::external_body]
fn to_lowercase(text: &str) -> (lowered: String)
    ensures
        lowered@ == lowercase_of(text@),
{
    text.to_lowercase()
}

/// What is said of a name that is no environment.
pub open spec fn unsupported_environment(name: Seq<char>) -> Seq<char> {
    name + " is not supported environment. Use either 'Local' or 'Production'."@
}

/// The environment that a lowercase name stands for.
pub open spec fn environment_of(lowered: Seq<char>) -> Result<Environment, Seq<char>> {
    if lowered == "local"@ {
        Ok(Environment::Local)
    } else if lowered == "production"@ {
        Ok(Environment::Production)
    } else {
        Err(unsupported_environment(lowered))
    }
}

/// The result as a value: the environment, or the text of the message.
pub open spec fn environment_result(parsed: Result<Environment, String>) -> Result<
    Environment,
    Seq<char>,
> {
    match parsed {
        Ok(environment) => Ok(environment),
        Err(message) => Err(message@),
    }
}

/// The name used when the variable that selects the environment is not set.
pub open spec fn default_environment_name() -> Seq<char> {
    "local"@
}

impl Environment {
    /// The name of this environment.
    pub fn as_str(&self) -> (name: &'static str)
        ensures
            name@ == environment_name(*self),
    {
        match self {
            Environment::Local => "local",
            Environment::Production => "production",
        }
    }

    /// The environment that the lowercase name `lowered` stands for: `local`
    /// or `production`, and nothing else.
    pub fn from_lowercase(lowered: String) -> (parsed: Result<Environment, String>)
        ensures
            environment_result(parsed) == environment_of(lowered@),
    {
        if lowered == String::from_str("local") {
            Ok(Environment::Local)
        } else if lowered == String::from_str("production") {
            Ok(Environment::Production)
        } else {
            Err(lowered.concat(" is not supported environment. Use either 'Local' or 'Production'."))
        }
    }

    /// The environment that `name` stands for, whatever the case of its
    /// letters.
    pub fn try_from(name: String) -> (parsed: Result<Environment, String>)
        ensures
            environment_result(parsed) == environment_of(lowercase_of(name@)),
    {
        Environment::from_lowercase(to_lowercase(name.as_str()))
    }

    /// The environment selected by the variable `APP_ENVIRONMENT`, given
    /// what the variable holds: `local` where it is not set.
    pub fn from_variable(value: Option<String>) -> (parsed: Result<Environment, String>)
        ensures
            environment_result(parsed) == environment_of(
                lowercase_of(
                    match value {
                        Some(name) => name@,
                        None => default_environment_name(),
                    },
                ),
            ),
    {
        match value {
            Some(name) => Environment::try_from(name),
            None => Environment::try_from(String::from_str("local")),
        }
    }
}

/// How a connection to the database is secured.
#[derive(Clone, Copy, Debug, PartialEq, Eq, Structural)]
pub enum SslMode {
    /// Only an encrypted connection will do.
    Require,
    /// Try an encrypted connection, fall back to an unencrypted one.
    Prefer,
}

/// The settings of the database. The password is held as it is: the type
/// has no way of printing itself.
#[derive(PartialEq, Eq)]
pub struct DatabaseSettings {
    pub username: String,
    pub password: String,
    pub port: u16,
    pub host: String,
    pub database_name: String,
    pub require_ssl: bool,
    pub migrate: bool,
}

/// The settings of the HTTP client that sends the emails.
#[derive(PartialEq, Eq)]
pub struct EmailClientSettings {
    pub base_url: String,
    pub sender_email: String,
    pub authorization_token: String,
    pub timeout_milliseconds: u64,
}

/// The settings of the web application.
#[derive(PartialEq, Eq)]
pub struct ApplicationSettings {
    pub port: u16,
    pub host: String,
    pub base_url: String,
    pub hmac_secret: String,
}

/// All settings.
#[derive(PartialEq, Eq)]
pub struct Settings {
    pub database: DatabaseSettings,
    pub application: ApplicationSettings,
    pub email_client: EmailClientSettings,
    pub redis_uri: String,
}

/// What it takes to connect to the database server, and to which database
/// if any.
#[derive(PartialEq, Eq)]
pub struct ConnectOptions {
    pub host: String,
    pub username: String,
    pub password: String,
    pub port: u16,
    pub ssl_mode: SslMode,
    pub database: Option<String>,
    pub trace_statements: bool,
}

/// What connect options are, as a value.
pub struct ConnectOptionsView {
    pub host: Seq<char>,
    pub username: Seq<char>,
    pub password: Seq<char>,
    pub port: u16,
    pub ssl_mode: SslMode,
    pub database: Option<Seq<char>>,
    pub trace_statements: bool,
}

impl View for ConnectOptions {
    type V = ConnectOptionsView;

    open spec fn view(&self) -> ConnectOptionsView {
        ConnectOptionsView {
            host: self.host@,
            username: self.username@,
            password: self.password@,
            port: self.port,
            ssl_mode: self.ssl_mode,
            database: match self.database {
                Some(name) => Some(name@),
                None => None,
            },
            trace_statements: self.trace_statements,
        }
    }
}

impl DatabaseSettings {
    /// The options to connect to the server without naming a database.
    pub open spec fn server_options(&self) -> ConnectOptionsView {
        ConnectOptionsView {
            host: self.host@,
            username: self.username@,
            password: self.password@,
            port: self.port,
            ssl_mode: if self.require_ssl {
                SslMode::Require
            } else {
                SslMode::Prefer
            },
            database: None,
            trace_statements: false,
        }
    }

    /// The options to connect to the server without naming a database:
    /// encryption is required where the settings say so and preferred
    /// otherwise.
    pub fn without_db(&self) -> (options: ConnectOptions)
        ensures
            options@ == self.server_options(),
    {
        let ssl_mode = if self.require_ssl {
            SslMode::Require
        } else {
            SslMode::Prefer
        };
        ConnectOptions {
            host: self.host.clone(),
            username: self.username.clone(),
            password: self.password.clone(),
            port: self.port,
            ssl_mode,
            database: None,
            trace_statements: false,
        }
    }

    /// The options to connect to the application's database, with every
    /// statement logged at trace level.
    pub fn with_db(&self) -> (options: ConnectOptions)
        ensures
            options@ == (ConnectOptionsView {
                database: Some(self.database_name@),
                trace_statements: true,
                ..self.server_options()
            }),
    {
        let mut options = self.without_db();
        options.database = Some(self.database_name.clone());
        options.trace_statements = true;
        options
    }
}

impl EmailClientSettings {
    /// The address that the emails are sent from, where the settings hold
    /// one.
    pub fn sender(&self) -> (sender: Result<SubscriberEmail, String>)
        ensures
            match sender {
                Ok(email) => is_valid_email(self.sender_email@) && email@ == self.sender_email@,
                Err(message) => !is_valid_email(self.sender_email@) && message@
                    == invalid_email_message(self.sender_email@),
            },
    {
        SubscriberEmail::parse(self.sender_email.clone())
    }

    /// How long the client waits for the email service, in milliseconds.
    pub fn timeout(&self) -> (milliseconds: u64)
        ensures
            milliseconds == self.timeout_milliseconds,
    {
        self.timeout_milliseconds
    }
}

} // verus!
