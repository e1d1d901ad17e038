use cyberdeck::models::{AuthMethod, CommandResult, TargetProfile};
use cyberdeck::ssh_ops::{
    auth_plan, authorized_keys_from_output, build_exchange_command, check_host_key,
    exchange_public_key, fetch_authorized_keys_command, fetch_remote_authorized_keys,
    shell_escape_single, test_connection, AuthPlan, HostKeyCheck, SshOpError,
};

#[test]
fn shell_escape_handles_quotes() {
    let escaped = shell_escape_single("abc'def");
    assert_eq!(escaped, "'abc'\"'\"'def'");
}

#[test]
fn shell_escape_empty_and_plain() {
    assert_eq!(shell_escape_single(""), "''");
    assert_eq!(shell_escape_single("a b;c"), "'a b;c'");
}

#[test]
fn exchange_command_enforces_permissions_and_idempotency() {
    let command = build_exchange_command("ssh-ed25519 AAAA test@example");
    assert!(command.contains("chmod 700 ~/.ssh"));
    assert!(command.contains("chmod 600 ~/.ssh/authorized_keys"));
    assert!(command.contains("grep -qxF"));
}

#[test]
fn exchange_command_exact() {
    assert_eq!(
        build_exchange_command("k'1"),
        "umask 077; mkdir -p ~/.ssh; chmod 700 ~/.ssh; touch ~/.ssh/authorized_keys; chmod 600 ~/.ssh/authorized_keys; grep -qxF 'k'\"'\"'1' ~/.ssh/authorized_keys || echo 'k'\"'\"'1' >> ~/.ssh/authorized_keys"
    );
}

#[test]
fn fetch_authorized_keys_command_does_not_mask_errors() {
    let command = fetch_authorized_keys_command();
    assert!(!command.contains("|| true"));
}

fn profile() -> TargetProfile {
    TargetProfile {
        name: "t".to_string(),
        host: "10.0.0.9".to_string(),
        port: 2022,
        user: "ops".to_string(),
        auth: AuthMethod::Password { password: "pw".to_string() },
    }
}

fn result(stdout: &str, stderr: &str, exit_status: i32) -> CommandResult {
    CommandResult { stdout: stdout.to_string(), stderr: stderr.to_string(), exit_status }
}

#[test]
fn authorized_keys_are_nonblank_trimmed_lines() {
    let keys = authorized_keys_from_output("  ssh-ed25519 A x \r\n\n   \nssh-rsa B y");
    assert_eq!(keys, vec!["ssh-ed25519 A x".to_string(), "ssh-rsa B y".to_string()]);
}

#[test]
fn fetch_outcomes() {
    let ok = fetch_remote_authorized_keys(&profile(), &result("k1\nk2\n", "", 0)).unwrap();
    assert_eq!(ok, vec!["k1".to_string(), "k2".to_string()]);
    match fetch_remote_authorized_keys(&profile(), &result("", " denied \n", 1)) {
        Err(SshOpError::FetchFailed { endpoint, exit_status, stderr }) => {
            assert_eq!(endpoint, "10.0.0.9:2022");
            assert_eq!(exit_status, 1);
            assert_eq!(stderr, "denied");
        }
        other => panic!("unexpected {other:?}"),
    }
}

#[test]
fn exchange_outcomes() {
    assert!(exchange_public_key(&profile(), &result("", "", 0)).is_ok());
    match exchange_public_key(&profile(), &result("", "no space\n", -3)) {
        Err(SshOpError::ExchangeFailed { endpoint, exit_status, stderr }) => {
            assert_eq!(endpoint, "10.0.0.9:2022");
            assert_eq!(exit_status, -3);
            assert_eq!(stderr, "no space");
        }
        other => panic!("unexpected {other:?}"),
    }
}

#[test]
fn connection_test_outcomes() {
    assert!(test_connection(&profile(), true).is_ok());
    match test_connection(&profile(), false) {
        Err(SshOpError::NotAuthenticated { endpoint }) => assert_eq!(endpoint, "10.0.0.9:2022"),
        other => panic!("unexpected {other:?}"),
    }
}

#[test]
fn auth_plans() {
    match auth_plan(&profile()).unwrap() {
        AuthPlan::Password { user, password } => {
            assert_eq!(user, "ops");
            assert_eq!(password, "pw");
        }
        other => panic!("unexpected {other:?}"),
    }
    let mut p = profile();
    p.auth = AuthMethod::KeyFile { private_key: " /keys/id ".to_string(), passphrase: Some("pp".to_string()) };
    match auth_plan(&p).unwrap() {
        AuthPlan::KeyFile { user, private_key_path, passphrase } => {
            assert_eq!(user, "ops");
            assert_eq!(private_key_path, "/keys/id");
            assert_eq!(passphrase.as_deref(), Some("pp"));
        }
        other => panic!("unexpected {other:?}"),
    }
}

#[test]
fn host_key_outcomes() {
    assert!(check_host_key(&profile(), HostKeyCheck::Match).is_ok());
    assert!(check_host_key(&profile(), HostKeyCheck::NotFound).is_ok());
    let mismatch = check_host_key(&profile(), HostKeyCheck::Mismatch).unwrap_err();
    match &mismatch {
        SshOpError::HostKeyMismatch { endpoint } => assert_eq!(endpoint, "10.0.0.9:2022"),
        other => panic!("unexpected {other:?}"),
    }
    assert_eq!(
        mismatch.to_text(),
        "host key mismatch for 10.0.0.9:2022: it differs from the key in ~/.ssh/known_hosts (possible MITM attack); connection aborted"
    );
    let failure = check_host_key(&profile(), HostKeyCheck::Failure).unwrap_err();
    assert_eq!(
        failure.to_text(),
        "could not verify the host key of 10.0.0.9:2022 against ~/.ssh/known_hosts; connection aborted"
    );
}

#[test]
fn operation_error_texts() {
    let e = SshOpError::ExchangeFailed {
        endpoint: "h:22".to_string(),
        exit_status: -3,
        stderr: "denied".to_string(),
    };
    assert_eq!(e.to_text(), "failed exchanging key on h:22 (exit=-3): denied");
    let e = SshOpError::FetchFailed { endpoint: "h:22".to_string(), exit_status: 1, stderr: String::new() };
    assert_eq!(e.to_text(), "failed reading remote authorized_keys on h:22 (exit=1): ");
    let e = SshOpError::NotAuthenticated { endpoint: "h:22".to_string() };
    assert_eq!(e.to_text(), "session established but authentication state is false for h:22");
}
