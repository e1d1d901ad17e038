use cyberdeck::models::{AuthMethod, TargetProfile};
use cyberdeck::ssh_config::{
    import_ssh_config_as_targets, is_wildcard_only, parse_ssh_config_str, SshConfigEntry,
};

#[test]
fn parses_basic_ssh_config() {
    let config = "\
Host myserver
    HostName 192.168.1.100
    User admin
    Port 2222
    IdentityFile ~/.ssh/id_rsa

Host devbox
    HostName dev.example.com
    User developer
";

    let entries = parse_ssh_config_str(config);
    assert_eq!(entries.len(), 2);

    assert_eq!(entries[0].alias, "myserver");
    assert_eq!(entries[0].hostname.as_deref(), Some("192.168.1.100"));
    assert_eq!(entries[0].user.as_deref(), Some("admin"));
    assert_eq!(entries[0].port, Some(2222));
    assert_eq!(entries[0].identity_file.as_deref(), Some("~/.ssh/id_rsa"));

    assert_eq!(entries[1].alias, "devbox");
    assert_eq!(entries[1].hostname.as_deref(), Some("dev.example.com"));
    assert_eq!(entries[1].user.as_deref(), Some("developer"));
    assert_eq!(entries[1].port, None);
}

#[test]
fn skips_wildcard_hosts() {
    let config = "\
Host *
    ServerAliveInterval 60

Host myserver
    HostName 10.0.0.1
    User root
";
    let entries = parse_ssh_config_str(config);
    assert_eq!(entries.len(), 1);
    assert_eq!(entries[0].alias, "myserver");
}

#[test]
fn skips_comments_and_empty_lines() {
    let config = "\
# This is a comment
   # indented comment

Host example
    HostName example.com
    User me
";
    let entries = parse_ssh_config_str(config);
    assert_eq!(entries.len(), 1);
}

#[test]
fn to_target_profile_requires_user() {
    let entry = SshConfigEntry {
        alias: "nouser".to_string(),
        hostname: Some("1.2.3.4".to_string()),
        user: None,
        port: None,
        identity_file: None,
    };
    assert!(entry.to_target_profile().is_none());
}

#[test]
fn to_target_profile_converts_valid_entry() {
    let entry = SshConfigEntry {
        alias: "myhost".to_string(),
        hostname: Some("10.0.0.1".to_string()),
        user: Some("admin".to_string()),
        port: Some(2222),
        identity_file: Some("~/.ssh/custom_key".to_string()),
    };

    let profile = entry.to_target_profile().expect("should convert");
    assert_eq!(profile.name, "myhost");
    assert_eq!(profile.host, "10.0.0.1");
    assert_eq!(profile.port, 2222);
    assert_eq!(profile.user, "admin");
}

#[test]
fn wildcard_host_in_entry_skipped() {
    let entry = SshConfigEntry {
        alias: "wildcard".to_string(),
        hostname: Some("*.example.com".to_string()),
        user: Some("admin".to_string()),
        port: None,
        identity_file: None,
    };
    assert!(entry.to_target_profile().is_none());
}

#[test]
fn keywords_are_case_insensitive_and_match_blocks_end_entries() {
    let config = "HOST a b\r\n  hOsTnAmE  h1 \r\n  PORT +22\nport 70000\nMatch host x\n  User ignored\nHost\tc\n  User u\n  Port nope\nsingleword\n";
    let entries = parse_ssh_config_str(config);
    assert_eq!(entries.len(), 2);
    assert_eq!(entries[0].alias, "a");
    assert_eq!(entries[0].hostname.as_deref(), Some("h1"));
    assert_eq!(entries[0].port, Some(22));
    assert_eq!(entries[0].user, None);
    assert_eq!(entries[1].alias, "c");
    assert_eq!(entries[1].user.as_deref(), Some("u"));
    assert_eq!(entries[1].port, None);
}

#[test]
fn directives_before_any_host_are_ignored() {
    let entries = parse_ssh_config_str("User root\nPort 2\n");
    assert!(entries.is_empty());
    assert!(parse_ssh_config_str("").is_empty());
}

#[test]
fn wildcard_alias_detection() {
    assert!(is_wildcard_only("*"));
    assert!(is_wildcard_only("* "));
    assert!(is_wildcard_only(" * "));
    assert!(!is_wildcard_only("*.x"));
}

#[test]
fn entry_defaults() {
    let mut entry = SshConfigEntry {
        alias: "box".to_string(),
        hostname: None,
        user: Some("me".to_string()),
        port: None,
        identity_file: None,
    };
    assert!(entry.to_target_profile().is_none());
    entry.hostname = Some("box.example".to_string());
    let p = entry.to_target_profile().unwrap();
    assert_eq!(p.name, "box");
    assert_eq!(p.host, "box.example");
    assert_eq!(p.port, 22);
    assert_eq!(
        p.auth,
        AuthMethod::KeyFile { private_key: "~/.ssh/id_ed25519".to_string(), passphrase: None }
    );
}

fn entry(alias: &str, host: &str, user: Option<&str>, port: Option<u16>) -> SshConfigEntry {
    SshConfigEntry {
        alias: alias.to_string(),
        hostname: Some(host.to_string()),
        user: user.map(String::from),
        port,
        identity_file: None,
    }
}

#[test]
fn import_skips_duplicates_and_unusable_entries() {
    let existing = vec![TargetProfile {
        name: "Prod".to_string(),
        host: "prod.example.com".to_string(),
        port: 22,
        user: "deploy".to_string(),
        auth: AuthMethod::Password { password: String::new() },
    }];
    let entries = vec![
        entry("prod", "other", Some("x"), None),
        entry("p2", "PROD.example.com", Some("deploy"), Some(22)),
        entry("nouser", "h", None, None),
        entry("new", "new.example.com", Some("me"), None),
        entry("NEW", "another", Some("me"), None),
        entry("p3", "prod.example.com", Some("deploy"), Some(2222)),
    ];
    let (imported, skipped) = import_ssh_config_as_targets(&existing, entries);
    let names: Vec<&str> = imported.iter().map(|t| t.name.as_str()).collect();
    assert_eq!(names, vec!["new", "p3"]);
    assert_eq!(skipped, 4);
}
