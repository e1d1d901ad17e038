use cyberdeck::cli::{build_profile, format_ssh_command, ProfileError};
use cyberdeck::models::{AuthMethod, TargetProfile};

#[test]
fn build_profile_rejects_empty_host_and_user() {
    assert!(build_profile(
        " ".to_string(),
        22,
        "user".to_string(),
        Some("pw".to_string()),
        None,
        None
    )
    .is_err());

    assert!(build_profile(
        "127.0.0.1".to_string(),
        22,
        " ".to_string(),
        Some("pw".to_string()),
        None,
        None
    )
    .is_err());
}

#[test]
fn format_ssh_command_keyfile_standard_port() {
    let profile = TargetProfile {
        name: "dev".to_string(),
        host: "10.0.0.1".to_string(),
        port: 22,
        user: "deploy".to_string(),
        auth: AuthMethod::KeyFile {
            private_key: "~/.ssh/id_ed25519".to_string(),
            passphrase: None,
        },
    };
    let cmd = format_ssh_command(&profile);
    assert_eq!(cmd, "ssh -i ~/.ssh/id_ed25519 deploy@10.0.0.1");
}

#[test]
fn format_ssh_command_keyfile_custom_port() {
    let profile = TargetProfile {
        name: "prod".to_string(),
        host: "prod.example.com".to_string(),
        port: 2222,
        user: "admin".to_string(),
        auth: AuthMethod::KeyFile {
            private_key: "~/.ssh/prod_key".to_string(),
            passphrase: None,
        },
    };
    let cmd = format_ssh_command(&profile);
    assert_eq!(cmd, "ssh -i ~/.ssh/prod_key -p 2222 admin@prod.example.com");
}

#[test]
fn format_ssh_command_password_auth() {
    let profile = TargetProfile {
        name: "legacy".to_string(),
        host: "old.server".to_string(),
        port: 22,
        user: "root".to_string(),
        auth: AuthMethod::Password {
            password: "secret".to_string(),
        },
    };
    let cmd = format_ssh_command(&profile);
    assert!(cmd.contains("password auth"));
    assert!(cmd.contains("ssh"));
    assert!(cmd.contains("root@old.server"));
}

#[test]
fn format_ssh_command_password_exact() {
    let profile = TargetProfile {
        name: "legacy".to_string(),
        host: "old.server".to_string(),
        port: 2200,
        user: "root".to_string(),
        auth: AuthMethod::Password {
            password: "secret".to_string(),
        },
    };
    assert_eq!(
        format_ssh_command(&profile),
        "# (password auth \u{2014} enter password when prompted)\n ssh -p 2200 root@old.server"
    );
}

#[test]
fn build_profile_trims_key_file_and_empty_passphrase() {
    let profile = build_profile(
        "127.0.0.1".to_string(),
        22,
        "tester".to_string(),
        None,
        Some(" ~/.ssh/id_ed25519 ".to_string()),
        Some("".to_string()),
    )
    .expect("profile");

    match profile.auth {
        AuthMethod::KeyFile {
            private_key,
            passphrase,
        } => {
            assert_eq!(private_key, "~/.ssh/id_ed25519");
            assert!(passphrase.is_none());
        }
        AuthMethod::Password { .. } => panic!("expected key auth"),
    }
}

#[test]
fn build_profile_names_and_errors() {
    let p = build_profile(" host ".to_string(), 2022, " me ".to_string(), Some("pw".to_string()), None, None).unwrap();
    assert_eq!(p.name, "me@host:2022");
    assert_eq!(p.host, "host");
    assert_eq!(p.user, "me");
    let err = |pw: Option<&str>, key: Option<&str>| {
        build_profile("h".to_string(), 22, "u".to_string(), pw.map(String::from), key.map(String::from), None).unwrap_err()
    };
    assert_eq!(err(None, None), ProfileError::AuthRequired);
    assert_eq!(err(Some("p"), Some("k")), ProfileError::AuthRequired);
    assert_eq!(err(Some(""), None), ProfileError::EmptyPassword);
    assert_eq!(err(None, Some("  ")), ProfileError::EmptyKeyFile);
    let k = build_profile("h".to_string(), 22, "u".to_string(), None, Some("k".to_string()), Some("pp".to_string())).unwrap();
    assert_eq!(k.auth, AuthMethod::KeyFile { private_key: "k".to_string(), passphrase: Some("pp".to_string()) });
}

#[test]
fn profile_error_messages() {
    assert_eq!(
        ProfileError::AuthRequired.message(),
        "authentication required: use exactly one of --password or --key-file"
    );
    assert_eq!(ProfileError::EmptyKeyFile.message(), "key-file cannot be empty");
}
