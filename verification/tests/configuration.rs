//! Tests of layered configuration resolution: precedence, coercion,
//! environment selection and error reporting.

use zero2prod::configuration::{
    resolve_configuration, resolve_environment, ConfigError, ConfigValue, Document, Environment,
    override_key,
};

fn text(v: &str) -> ConfigValue {
    ConfigValue::Text(v.to_string())
}

/// A base document that binds every required field.
fn full_base() -> Document {
    let mut doc = Document::new();
    doc.insert("database.username".to_string(), text("base_user"));
    doc.insert("database.password".to_string(), text("base_pass"));
    doc.insert("database.port".to_string(), ConfigValue::Integer(5432));
    doc.insert("database.host".to_string(), text("127.0.0.1"));
    doc.insert("database.database_name".to_string(), text("newsletter"));
    doc.insert("application.port".to_string(), ConfigValue::Integer(8000));
    doc.insert("application.host".to_string(), text("127.0.0.1"));
    doc.insert("application.base_url".to_string(), text("http://127.0.0.1"));
    doc.insert("email_client.base_url".to_string(), text("http://localhost:9000"));
    doc.insert("email_client.sender_email".to_string(), text("sender@example.com"));
    doc.insert("email_client.authorization_token".to_string(), text("base-token"));
    doc
}

#[test]
fn resolution_takes_the_last_overriding_layer_per_key() {
    let base = full_base();
    let mut environment = Document::new();
    environment.insert("application.host".to_string(), text("0.0.0.0"));
    environment.insert("database.password".to_string(), text("env_pass"));
    let mut overrides = Document::new();
    overrides.insert("application.port".to_string(), text("5001"));
    overrides.insert("database.password".to_string(), text("override_pass"));

    let settings = resolve_configuration(Some(base), Some(environment), overrides).unwrap();
    // untouched keys come from the base document
    assert_eq!(settings.database.username, "base_user");
    assert_eq!(settings.database.port, 5432);
    // the environment document overrides the base
    assert_eq!(settings.application.host, "0.0.0.0");
    // an environment variable overrides both earlier layers
    assert_eq!(settings.application.port, 5001);
    assert_eq!(settings.database.password, "override_pass");
}

#[test]
fn later_bindings_win_within_one_document() {
    let mut base = full_base();
    base.insert("database.username".to_string(), text("rebound_user"));
    let settings = resolve_configuration(Some(base), Some(Document::new()), Document::new())
        .unwrap();
    assert_eq!(settings.database.username, "rebound_user");
}

#[test]
fn numeric_string_and_bare_number_resolve_to_the_same_port() {
    let with_number = {
        let mut base = full_base();
        base.insert("database.port".to_string(), ConfigValue::Integer(5432));
        resolve_configuration(Some(base), Some(Document::new()), Document::new()).unwrap()
    };
    let with_string = {
        let mut base = full_base();
        base.insert("database.port".to_string(), text("5432"));
        resolve_configuration(Some(base), Some(Document::new()), Document::new()).unwrap()
    };
    assert_eq!(with_number.database.port, 5432);
    assert_eq!(with_string.database.port, with_number.database.port);
}

#[test]
fn port_bounds_and_malformed_numerals_are_rejected() {
    for bad in ["65536", "-1", "12a", "", "+", "8 0"] {
        let mut base = full_base();
        base.insert("application.port".to_string(), text(bad));
        let outcome = resolve_configuration(Some(base), Some(Document::new()), Document::new());
        match outcome {
            Err(ConfigError::Field(key)) => assert_eq!(key, "application.port"),
            _ => panic!("port {:?} should have been rejected", bad),
        }
    }
    let mut base = full_base();
    base.insert("application.port".to_string(), text("+65535"));
    let settings =
        resolve_configuration(Some(base), Some(Document::new()), Document::new()).unwrap();
    assert_eq!(settings.application.port, 65535);
}

#[test]
fn missing_documents_are_fatal() {
    let outcome = resolve_configuration(None, Some(Document::new()), Document::new());
    assert!(matches!(outcome, Err(ConfigError::MissingBaseDocument)));

    let outcome = resolve_configuration(Some(full_base()), None, Document::new());
    assert!(matches!(outcome, Err(ConfigError::MissingEnvironmentDocument)));
}

#[test]
fn the_first_failing_field_is_named() {
    let mut base = full_base();
    base.insert("database.password".to_string(), ConfigValue::Integer(5));
    let outcome = resolve_configuration(Some(base), Some(Document::new()), Document::new());
    match outcome {
        Err(e) => {
            assert!(matches!(&e, ConfigError::Field(key) if key == "database.password"));
            assert_eq!(
                e.message(),
                "missing or invalid configuration field: database.password"
            );
        }
        Ok(_) => panic!("a non-string password should not type-check"),
    }
}

#[test]
fn unset_selector_defaults_to_local() {
    assert_eq!(resolve_environment(None).unwrap(), Environment::Local);
}

#[test]
fn recognized_selectors_are_matched_in_any_letter_case() {
    for name in ["local", "LOCAL", "Local", "lOcAl"] {
        assert_eq!(
            resolve_environment(Some(name.to_string())).unwrap(),
            Environment::Local
        );
    }
    for name in ["production", "PRODUCTION", "PrOdUcTiOn"] {
        assert_eq!(
            resolve_environment(Some(name.to_string())).unwrap(),
            Environment::Production
        );
    }
}

#[test]
fn unrecognized_selector_fails_naming_the_value() {
    let outcome = resolve_environment(Some("staging".to_string()));
    match outcome {
        Err(e) => {
            assert!(matches!(&e, ConfigError::UnknownEnvironment(v) if v == "staging"));
            assert_eq!(
                e.message(),
                "staging is not a supported environment. Use either 'local' or 'production'."
            );
        }
        Ok(_) => panic!("staging is not a recognized environment"),
    }
}

#[test]
fn try_from_reports_the_unsupported_value() {
    assert!(matches!(
        Environment::try_from("local".to_string()),
        Ok(Environment::Local)
    ));
    assert!(matches!(
        Environment::try_from("PRODUCTION".to_string()),
        Ok(Environment::Production)
    ));
    assert_eq!(
        Environment::try_from("dev".to_string()).unwrap_err(),
        "dev is not a supported environment. Use either 'local' or 'production'."
    );
}

#[test]
fn environment_names_match_their_documents() {
    assert_eq!(Environment::Local.as_str(), "local");
    assert_eq!(Environment::Production.as_str(), "production");
}

#[test]
fn override_keys_target_nested_fields() {
    assert_eq!(
        override_key("APP_APPLICATION__PORT").unwrap(),
        "application.port"
    );
    assert_eq!(
        override_key("APP_EMAIL_CLIENT__BASE_URL").unwrap(),
        "email_client.base_url"
    );
    assert_eq!(override_key("app_database__host").unwrap(), "database.host");
    assert_eq!(override_key("PATH"), None);
    assert_eq!(override_key("APP_"), None);
    assert_eq!(override_key("APPLICATION__PORT"), None);
}

#[test]
fn document_lookup_returns_the_last_binding() {
    let mut doc = Document::new();
    doc.insert("application.port".to_string(), text("1"));
    doc.insert("application.port".to_string(), text("2"));
    match doc.get(&"application.port".to_string()) {
        Some(ConfigValue::Text(v)) => assert_eq!(v, "2"),
        _ => panic!("the key was bound"),
    }
    assert!(doc.get(&"application.host".to_string()).is_none());
}

#[test]
fn sender_is_validated_from_the_settings() {
    let settings =
        resolve_configuration(Some(full_base()), Some(Document::new()), Document::new()).unwrap();
    let sender = settings.email_client.sender().unwrap();
    assert_eq!(sender.as_ref(), "sender@example.com");

    let mut base = full_base();
    base.insert("email_client.sender_email".to_string(), text("not-an-email"));
    let settings =
        resolve_configuration(Some(base), Some(Document::new()), Document::new()).unwrap();
    assert_eq!(
        settings.email_client.sender().unwrap_err(),
        "not-an-email is not a valid subscriber email."
    );
}
