use zero2prod::configuration::{ConnectOptions, DatabaseSettings, EmailClientSettings, Environment, SslMode};

fn database(require_ssl: bool) -> DatabaseSettings {
    DatabaseSettings {
        username: "postgres".to_string(),
        password: "SECRET-REDACTED".to_string(),
        port: 5432,
        host: "localhost".to_string(),
        database_name: "newsletter".to_string(),
        require_ssl,
        migrate: true,
    }
}

#[test]
fn environments_are_named_in_lower_case() {
    assert_eq!(Environment::Local.as_str(), "local");
    assert_eq!(Environment::Production.as_str(), "production");
}

#[test]
fn an_environment_is_recognised_in_any_case() {
    assert_eq!(Environment::try_from("local".to_string()), Ok(Environment::Local));
    assert_eq!(Environment::try_from("LOCAL".to_string()), Ok(Environment::Local));
    assert_eq!(Environment::try_from("Production".to_string()), Ok(Environment::Production));
    assert_eq!(Environment::from_lowercase("production".to_string()), Ok(Environment::Production));
}

#[test]
fn an_unknown_environment_is_named_in_the_message() {
    assert_eq!(
        Environment::try_from("Staging".to_string()),
        Err("staging is not supported environment. Use either 'Local' or 'Production'.".to_string())
    );
    assert_eq!(
        Environment::from_lowercase("LOCAL".to_string()),
        Err("LOCAL is not supported environment. Use either 'Local' or 'Production'.".to_string())
    );
    assert_eq!(
        Environment::try_from(String::new()),
        Err(" is not supported environment. Use either 'Local' or 'Production'.".to_string())
    );
}

#[test]
fn the_environment_is_local_unless_the_variable_says_otherwise() {
    assert_eq!(Environment::from_variable(None), Ok(Environment::Local));
    assert_eq!(Environment::from_variable(Some("PRODUCTION".to_string())), Ok(Environment::Production));
    assert!(Environment::from_variable(Some("test".to_string())).is_err());
}

#[test]
fn encryption_is_required_only_where_the_settings_say_so() {
    let expected = ConnectOptions {
        host: "localhost".to_string(),
        username: "postgres".to_string(),
        password: "SECRET-REDACTED".to_string(),
        port: 5432,
        ssl_mode: SslMode::Require,
        database: None,
        trace_statements: false,
    };
    assert!(database(true).without_db() == expected);
    assert_eq!(database(false).without_db().ssl_mode, SslMode::Prefer);
}

#[test]
fn the_database_is_named_and_its_statements_traced() {
    let options = database(false).with_db();
    assert_eq!(options.database, Some("newsletter".to_string()));
    assert!(options.trace_statements);
    assert_eq!(options.ssl_mode, SslMode::Prefer);
    assert_eq!(options.port, 5432);
    assert_eq!(options.host, "localhost");
}

#[test]
fn the_sender_is_an_address_or_an_error() {
    let mut settings = EmailClientSettings {
        base_url: "http://localhost".to_string(),
        sender_email: "test@gmail.com".to_string(),
        authorization_token: "SECRET-REDACTED".to_string(),
        timeout_milliseconds: 10_000,
    };
    assert_eq!(settings.sender().unwrap().as_ref(), "test@gmail.com");
    settings.sender_email = "test".to_string();
    assert_eq!(settings.sender(), Err("test is not a valid subscriber email.".to_string()));
    assert!(settings.sender_email == "test");
}

#[test]
fn the_timeout_is_given_in_milliseconds() {
    let settings = EmailClientSettings {
        base_url: "http://localhost".to_string(),
        sender_email: "test@gmail.com".to_string(),
        authorization_token: "SECRET-REDACTED".to_string(),
        timeout_milliseconds: 10_000,
    };
    assert_eq!(settings.timeout(), 10_000);
}
