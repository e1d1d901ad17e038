use cyberdeck::models::{AppConfig, AuthMethod, TargetProfile};
use cyberdeck::storage::{
    config_dir, config_path, is_blank_config, resolve_config_dir, sanitize_for_persistence,
    StorageError,
};

#[test]
fn resolve_config_dir_uses_override_when_present() {
    let override_dir = "/tmp/cyberdeck-test-override".to_string();
    let resolved = resolve_config_dir(None, Some(override_dir.clone())).expect("resolve override");
    assert_eq!(resolved, override_dir);
}

#[test]
fn resolve_config_dir_rules() {
    assert_eq!(resolve_config_dir(Some("/c".to_string()), None), Ok("/c/cyberdeck".to_string()));
    assert_eq!(resolve_config_dir(None, None), Err(StorageError::NoConfigDirectory));
    assert_eq!(
        resolve_config_dir(Some("/c".to_string()), Some(String::new())),
        Err(StorageError::OverrideEmpty)
    );
}

#[test]
fn config_path_with_override() {
    assert_eq!(config_dir(Some("/o".to_string())), Ok("/o".to_string()));
    assert_eq!(config_path(Some("/o".to_string())), Ok("/o/config.json".to_string()));
}

#[test]
fn blank_config_text() {
    assert!(is_blank_config("\n  \n"));
    assert!(!is_blank_config("{}"));
}

#[test]
fn credentials_stripped_on_save() {
    let cfg = AppConfig {
        targets: vec![
            TargetProfile {
                name: "pw".to_string(),
                host: "10.0.0.1".to_string(),
                port: 22,
                user: "admin".to_string(),
                auth: AuthMethod::Password {
                    password: "pw1".to_string(),
                },
            },
            TargetProfile {
                name: "key".to_string(),
                host: "10.0.0.2".to_string(),
                port: 22,
                user: "deploy".to_string(),
                auth: AuthMethod::KeyFile {
                    private_key: "~/.ssh/id_ed25519".to_string(),
                    passphrase: Some("pp1".to_string()),
                },
            },
        ],
        theme: None,
    };

    let stored = sanitize_for_persistence(&cfg);
    match &stored.targets[0].auth {
        AuthMethod::Password { password } => assert!(password.is_empty()),
        _ => panic!("expected password auth"),
    }
    match &stored.targets[1].auth {
        AuthMethod::KeyFile { passphrase, private_key } => {
            assert!(passphrase.is_none());
            assert_eq!(private_key, "~/.ssh/id_ed25519");
        }
        _ => panic!("expected keyfile auth"),
    }
    assert_eq!(stored.targets[1].name, "key");
    assert_eq!(cfg.targets[0].auth, AuthMethod::Password { password: "pw1".to_string() });
}

#[test]
fn storage_error_messages() {
    assert_eq!(StorageError::OverrideEmpty.message(), "CYBERDECK_CONFIG_DIR is set but empty");
    assert_eq!(StorageError::NoConfigDirectory.message(), "could not locate config directory");
}
