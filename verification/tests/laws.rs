use cyberdeck::cli::{build_profile, format_ssh_command, ProfileError};
use cyberdeck::health::{audit_keys, whole_days, Severity};
use cyberdeck::keys::{local_keys_from_files, sort_keys_by_name, validate_key_name, PubKeyFile};
use cyberdeck::models::{AppConfig, AuthMethod, LocalKey, TargetProfile};
use cyberdeck::ssh_config::{import_ssh_config_as_targets, parse_ssh_config_str, SshConfigEntry};
use cyberdeck::ssh_ops::shell_escape_single;
use cyberdeck::storage::sanitize_for_persistence;
use cyberdeck::tui::{move_index, next_tab, prev_tab, AuthFormKind, Tab, TargetForm, Theme};
use cyberdeck::tui_state::{Action, App, KeyInput};

fn law_key(name: &str, algorithm: &str, private: bool) -> LocalKey {
    LocalKey {
        name: name.to_string(),
        algorithm: algorithm.to_string(),
        comment: String::new(),
        fingerprint: "-".to_string(),
        public_key_path: format!("/k/{name}.pub"),
        private_key_path: if private { Some(format!("/k/{name}")) } else { None },
    }
}

fn law_target(name: &str, host: &str, port: u16, user: &str) -> TargetProfile {
    TargetProfile {
        name: name.to_string(),
        host: host.to_string(),
        port,
        user: user.to_string(),
        auth: AuthMethod::KeyFile { private_key: "~/.ssh/id".to_string(), passphrase: None },
    }
}

fn law_entry(alias: &str, host: &str, user: Option<&str>) -> SshConfigEntry {
    SshConfigEntry {
        alias: alias.to_string(),
        hostname: Some(host.to_string()),
        user: user.map(|u| u.to_string()),
        port: None,
        identity_file: None,
    }
}

/// What a POSIX shell makes of a word built from single- and double-quoted parts.
fn read_quoted_word(word: &str) -> Option<String> {
    let mut out = String::new();
    let mut state = 0u8;
    for c in word.chars() {
        match (state, c) {
            (0, '\'') => state = 1,
            (0, '"') => state = 2,
            (0, _) => return None,
            (1, '\'') => state = 0,
            (1, _) => out.push(c),
            (2, '"') => state = 0,
            (2, '$') | (2, '`') | (2, '\\') => return None,
            (_, _) => out.push(c),
        }
    }
    if state == 0 {
        Some(out)
    } else {
        None
    }
}

#[test]
fn tab_moves_undo_and_cycle() {
    for t in [Tab::Keys, Tab::Targets, Tab::Exchange, Tab::Console] {
        assert_eq!(prev_tab(next_tab(t)), t);
        assert_eq!(next_tab(prev_tab(t)), t);
        assert_ne!(next_tab(t), t);
        assert_eq!(next_tab(next_tab(next_tab(next_tab(t)))), t);
    }
}

#[test]
fn theme_moves_undo_and_names_read_back() {
    for t in [Theme::Cyberpunk, Theme::Synth, Theme::Matrix, Theme::Ember, Theme::Glacier] {
        assert_eq!(t.next().prev(), t);
        assert_eq!(t.prev().next(), t);
        assert_eq!(t.next().next().next().next().next(), t);
        assert_eq!(Theme::from_config_value(Some(t.config_value())), t);
        assert_eq!(Theme::from_config_value(Some(t.title())), t);
        let shouted = format!("  {} ", t.config_value().to_uppercase());
        assert_eq!(Theme::from_config_value(Some(&shouted)), t);
    }
}

#[test]
fn list_moves_stay_inside_and_undo() {
    for len in 1usize..5 {
        for start in 0..len {
            let mut i = start;
            move_index(&mut i, len, 1);
            assert!(i < len);
            move_index(&mut i, len, -1);
            assert_eq!(i, start);
            move_index(&mut i, len, -1);
            assert!(i < len);
            move_index(&mut i, len, 1);
            assert_eq!(i, start);
        }
    }
}

#[test]
fn form_field_moves_undo() {
    let mut form = TargetForm { auth_kind: AuthFormKind::KeyFile, ..Default::default() };
    for start in 0..7 {
        form.field = start;
        form.next_field();
        form.prev_field();
        assert_eq!(form.field, start);
        form.prev_field();
        assert!(form.field < 7);
        form.next_field();
        assert_eq!(form.field, start);
    }
}

#[test]
fn stored_config_has_no_secret_and_keeps_the_rest() {
    let cfg = AppConfig {
        targets: vec![
            TargetProfile {
                name: "a".to_string(),
                host: "h".to_string(),
                port: 2200,
                user: "u".to_string(),
                auth: AuthMethod::Password { password: "hunter2".to_string() },
            },
            TargetProfile {
                name: "b".to_string(),
                host: "g".to_string(),
                port: 22,
                user: "v".to_string(),
                auth: AuthMethod::KeyFile {
                    private_key: "~/.ssh/id_rsa".to_string(),
                    passphrase: Some("pp".to_string()),
                },
            },
        ],
        theme: Some("synth".to_string()),
    };
    let once = sanitize_for_persistence(&cfg);
    let twice = sanitize_for_persistence(&once);
    assert_eq!(once.targets, twice.targets);
    assert_eq!(once.theme, twice.theme);
    assert_eq!(once.targets.len(), 2);
    assert_eq!(once.theme.as_deref(), Some("synth"));
    assert_eq!(once.targets[0].auth, AuthMethod::Password { password: String::new() });
    assert_eq!(
        once.targets[1].auth,
        AuthMethod::KeyFile { private_key: "~/.ssh/id_rsa".to_string(), passphrase: None }
    );
    assert_eq!(once.targets[0].port, 2200);
    assert_eq!(once.targets[1].name, "b");
}

#[test]
fn audit_is_worst_first_and_complete() {
    let keys = vec![
        law_key("good", "ssh-ed25519", true),
        law_key("old", "ssh-rsa", false),
        law_key("bad", "ssh-dss", true),
        law_key("ec", "ecdsa-sha2-nistp256", true),
    ];
    let ages = vec![Some(10), Some(800), None, Some(400)];
    let findings = audit_keys(&keys, &ages);
    // One per key for the algorithm, one for the old RSA key, one for its
    // missing private key, one for the ECDSA key's age.
    assert_eq!(findings.len(), 7);
    for w in findings.windows(2) {
        assert!(w[0].severity.rank() >= w[1].severity.rank());
    }
    for k in &keys {
        assert!(findings.iter().any(|f| f.key_name == k.name));
    }
    assert_eq!(findings[0].severity, Severity::Critical);
    assert_eq!(findings[6].severity, Severity::Good);
}

#[test]
fn parsed_entries_are_named_hosts() {
    let text = "Host *\n  User x\nHost\n  User y\nHost  *  \n  User z\nHost real other\n  User w\n";
    let entries = parse_ssh_config_str(text);
    assert_eq!(entries.len(), 1);
    assert_eq!(entries[0].alias, "real");
    for e in &entries {
        assert!(!e.alias.is_empty());
        assert_ne!(e.alias.trim(), "*");
    }
}

#[test]
fn import_twice_adds_nothing() {
    let existing = vec![law_target("old", "old.example", 22, "me")];
    let entries = || {
        vec![
            law_entry("a", "a.example", Some("me")),
            law_entry("b", "b.example", None),
            law_entry("A", "c.example", Some("me")),
            law_entry("d", "OLD.example", Some("me")),
            law_entry("e", "a.example", Some("me")),
            law_entry("f", "f.example", Some("you")),
        ]
    };
    let (first, skipped) = import_ssh_config_as_targets(&existing, entries());
    assert_eq!(first.len() + skipped, 6);
    assert_eq!(first.iter().map(|t| t.name.as_str()).collect::<Vec<_>>(), vec!["a", "f"]);
    let mut all = existing.clone();
    all.extend(first.iter().cloned());
    let (second, skipped_again) = import_ssh_config_as_targets(&all, entries());
    assert!(second.is_empty());
    assert_eq!(skipped_again, 6);
}

#[test]
fn sorting_keys_orders_and_keeps_them() {
    let keys = vec![
        law_key("zeta", "ssh-ed25519", true),
        law_key("alpha", "ssh-rsa", true),
        law_key("Mid", "ssh-ed25519", false),
        law_key("alpha", "ssh-ed25519", false),
    ];
    let sorted = sort_keys_by_name(keys);
    let names: Vec<&str> = sorted.iter().map(|k| k.name.as_str()).collect();
    assert_eq!(names, vec!["Mid", "alpha", "alpha", "zeta"]);
    assert_eq!(sorted[1].algorithm, "ssh-rsa");
    assert_eq!(sorted[2].algorithm, "ssh-ed25519");
}

#[test]
fn checked_key_name_passes_again_unchanged() {
    let name = validate_key_name("  deploy key \t").unwrap();
    assert_eq!(name, "deploy key");
    assert_eq!(validate_key_name(&name).unwrap(), name);
}

#[test]
fn shell_quoting_reads_back() {
    for s in ["", "plain", "it's", "'", "''", "a\"b", "$(rm -rf ~)", "`x`", "\\", "sp ace\nnl"] {
        let quoted = shell_escape_single(s);
        assert_eq!(read_quoted_word(&quoted), Some(s.to_string()), "{quoted}");
    }
}

#[test]
fn profile_needs_exactly_one_credential() {
    let both = build_profile(
        "h".to_string(),
        22,
        "u".to_string(),
        Some("pw".to_string()),
        Some("~/.ssh/id".to_string()),
        None,
    );
    assert_eq!(both.unwrap_err(), ProfileError::AuthRequired);
    let neither = build_profile("h".to_string(), 22, "u".to_string(), None, None, None);
    assert_eq!(neither.unwrap_err(), ProfileError::AuthRequired);
    let one = build_profile(" h ".to_string(), 22, " u ".to_string(), Some("pw".to_string()), None, None)
        .unwrap();
    assert_eq!(one.host, "h");
    assert_eq!(one.user, "u");
}

#[test]
fn dialog_refuses_duplicate_endpoint() {
    let cfg = AppConfig { targets: vec![law_target("one", "h1", 22, "u")], theme: None };
    let mut app = App::new(cfg, Vec::new());
    app.on_key(KeyInput::Char('2'));
    app.on_key(KeyInput::Char('a'));
    for c in "other".chars() {
        app.on_key(KeyInput::Char(c));
    }
    app.on_key(KeyInput::Tab);
    for c in "H1".chars() {
        app.on_key(KeyInput::Char(c));
    }
    app.on_key(KeyInput::Tab);
    app.on_key(KeyInput::Tab);
    app.on_key(KeyInput::Char('u'));
    app.on_key(KeyInput::Tab);
    app.on_key(KeyInput::Tab);
    app.on_key(KeyInput::Char('s'));
    assert!(matches!(app.on_key(KeyInput::Enter), Action::Nothing));
    assert_eq!(app.config.targets.len(), 1);
    assert_eq!(app.logs.back().unwrap(), "ERROR: target u@H1:22 already exists.");
}

#[test]
fn export_ignores_secrets() {
    let cfg = AppConfig {
        targets: vec![
            TargetProfile {
                name: "p".to_string(),
                host: "h".to_string(),
                port: 2022,
                user: "u".to_string(),
                auth: AuthMethod::Password { password: "topsecret".to_string() },
            },
            TargetProfile {
                name: "k".to_string(),
                host: "g".to_string(),
                port: 22,
                user: "v".to_string(),
                auth: AuthMethod::KeyFile {
                    private_key: "~/.ssh/k".to_string(),
                    passphrase: Some("hidden".to_string()),
                },
            },
        ],
        theme: None,
    };
    let stored = sanitize_for_persistence(&cfg);
    for (a, b) in cfg.targets.iter().zip(stored.targets.iter()) {
        let cmd = format_ssh_command(a);
        assert_eq!(cmd, format_ssh_command(b));
        assert!(!cmd.contains("topsecret") && !cmd.contains("hidden"));
    }
}

#[test]
fn chosen_theme_survives_restart() {
    let mut app = App::new(AppConfig::default(), Vec::new());
    for _ in 0..3 {
        match app.on_key(KeyInput::F(2)) {
            Action::SaveConfig { then_log } => app.config_saved(None, then_log),
            other => panic!("unexpected {other:?}"),
        }
        let restarted = App::new(app.config.clone(), Vec::new());
        assert_eq!(restarted.theme, app.theme);
    }
    assert_eq!(app.theme, Theme::Matrix.next());
}

#[test]
fn entry_without_host_name_gives_no_target() {
    let entries = vec![
        SshConfigEntry {
            alias: "bare".to_string(),
            hostname: None,
            user: Some("me".to_string()),
            port: None,
            identity_file: None,
        },
        law_entry("full", "full.example", Some("me")),
    ];
    assert!(entries[0].to_target_profile().is_none());
    let (imported, skipped) = import_ssh_config_as_targets(&[], entries);
    assert_eq!(imported.len(), 1);
    assert_eq!(imported[0].name, "full");
    assert_eq!(skipped, 1);
}

#[test]
fn import_keeps_entry_order() {
    let existing = vec![law_target("x", "x.example", 22, "me")];
    let entries = vec![
        law_entry("c", "c.example", Some("me")),
        law_entry("b", "b.example", Some("me")),
        law_entry("X", "y.example", Some("me")),
        law_entry("a", "a.example", Some("me")),
    ];
    let (imported, skipped) = import_ssh_config_as_targets(&existing, entries);
    let names: Vec<&str> = imported.iter().map(|t| t.name.as_str()).collect();
    assert_eq!(names, vec!["c", "b", "a"]);
    assert_eq!(skipped, 1);
}

#[test]
fn export_text_format() {
    let key = law_target("k", "host.example", 2222, "dev");
    assert_eq!(format_ssh_command(&key), "ssh -i ~/.ssh/id -p 2222 dev@host.example");
    let pw = TargetProfile {
        name: "p".to_string(),
        host: "h".to_string(),
        port: 22,
        user: "u".to_string(),
        auth: AuthMethod::Password { password: "x".to_string() },
    };
    assert_eq!(
        format_ssh_command(&pw),
        "# (password auth \u{2014} enter password when prompted)\n ssh u@h"
    );
}

#[test]
fn scanned_files_give_sorted_keys() {
    let file = |name: &str, contents: &str, private: bool| PubKeyFile {
        public_key_path: format!("/h/.ssh/{name}.pub"),
        stem: Some(name.to_string()),
        contents: contents.to_string(),
        private_key_path: if private { Some(format!("/h/.ssh/{name}")) } else { None },
        fingerprint: None,
    };
    let files = vec![
        file("zz", "ssh-ed25519 AAAA z@h\n", true),
        file("blank", "  \n", true),
        file("aa", "ssh-rsa BBBB", false),
    ];
    let keys = local_keys_from_files(&files);
    assert_eq!(keys.len(), 2);
    assert_eq!(keys[0].name, "aa");
    assert_eq!(keys[0].algorithm, "ssh-rsa");
    assert_eq!(keys[0].private_key_path, None);
    assert_eq!(keys[0].fingerprint, "-");
    assert_eq!(keys[1].name, "zz");
    assert_eq!(keys[1].comment, "z@h");
    assert_eq!(keys[1].private_key_path.as_deref(), Some("/h/.ssh/zz"));
}

#[test]
fn key_age_in_whole_days() {
    assert_eq!(whole_days(0), 0);
    assert_eq!(whole_days(86399), 0);
    assert_eq!(whole_days(86400 * 731 + 5), 731);
}

#[test]
fn move_index_on_empty_list_resets() {
    let mut i = usize::MAX;
    move_index(&mut i, 0, 1);
    assert_eq!(i, 0);
}

#[test]
fn parser_reads_blocks_declaratively() {
    let text = "User early\nHost one two\n  HostName a\n  # note\n  HostName b\n  Port 99999\n  Port 2200\nMatch all\n  User lost\nHost *\n  User star\nHost last\n  IdentityFile ~/.ssh/k\n";
    let entries = parse_ssh_config_str(text);
    assert_eq!(entries.len(), 2);
    assert_eq!(entries[0].alias, "one");
    assert_eq!(entries[0].hostname.as_deref(), Some("b"));
    assert_eq!(entries[0].port, Some(2200));
    assert_eq!(entries[0].user, None);
    assert_eq!(entries[1].alias, "last");
    assert_eq!(entries[1].identity_file.as_deref(), Some("~/.ssh/k"));
    assert_eq!(entries[1].user, None);
}
