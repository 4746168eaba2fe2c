use herald::config::HeraldConfig;
use herald::env::EnvVars;

fn config_with_password(password: &str) -> HeraldConfig {
    let env = EnvVars {
        vars: vec![("HERALD_PASSWORD".to_string(), password.to_string())],
    };
    HeraldConfig::from_env(&env).ok().unwrap()
}

#[test]
fn password_length_counts_bytes() {
    // nine two-byte characters: 18 bytes
    let config = config_with_password("ééééééééé");
    assert!(config.validate(true, true).is_ok());
}

#[test]
fn short_password_is_refused() {
    let config = config_with_password("fifteen-bytes!!");
    let err = config.validate(true, true).unwrap_err();
    assert_eq!(err.message, "auth.password should be at least 16 characters");
    let config = config_with_password("sixteen-bytes!!!");
    assert!(config.validate(true, true).is_ok());
}

#[test]
fn missing_password_is_refused() {
    let env = EnvVars { vars: vec![] };
    let config = HeraldConfig::from_env(&env).ok().unwrap();
    let err = config.validate(true, true).unwrap_err();
    assert_eq!(err.message, "auth.password is required");
}
