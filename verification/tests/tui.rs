use cyberdeck::models::{AppConfig, AuthMethod, CommandResult, TargetProfile};
use cyberdeck::tui::{
    mask_secret, move_index, next_tab, prev_tab, AuthFormKind, Tab, TargetForm, Theme,
};
use cyberdeck::tui_state::{Action, App, KeyInput, Modal, MAX_LOG_LINES};

#[test]
fn target_form_rejects_whitespace_in_host_or_user() {
    let mut form = TargetForm {
        name: "dev".to_string(),
        host: "bad host".to_string(),
        port: "22".to_string(),
        user: "tester".to_string(),
        ..Default::default()
    };
    assert!(form.to_profile().is_err());

    form.host = "127.0.0.1".to_string();
    form.user = "bad user".to_string();
    assert!(form.to_profile().is_err());
}

#[test]
fn target_form_builds_key_auth_profile() {
    let form = TargetForm {
        name: "dev".to_string(),
        host: "127.0.0.1".to_string(),
        port: "22".to_string(),
        user: "tester".to_string(),
        auth_kind: AuthFormKind::KeyFile,
        private_key: "~/.ssh/id_ed25519".to_string(),
        passphrase: String::new(),
        ..Default::default()
    };
    let profile = form.to_profile().expect("profile");
    assert_eq!(profile.endpoint(), "127.0.0.1:22");
}

#[test]
fn move_index_wraps_at_edges() {
    let mut index = 0;
    move_index(&mut index, 3, -1);
    assert_eq!(index, 2);

    move_index(&mut index, 3, 1);
    assert_eq!(index, 0);
}

#[test]
fn tabs_and_themes_cycle() {
    assert_eq!(next_tab(Tab::Console), Tab::Keys);
    assert_eq!(prev_tab(Tab::Keys), Tab::Console);
    assert_eq!(Theme::Glacier.next(), Theme::Cyberpunk);
    assert_eq!(Theme::Cyberpunk.prev(), Theme::Glacier);
    assert_eq!(Theme::from_config_value(Some("  MATRIX ")), Theme::Matrix);
    assert_eq!(Theme::from_config_value(None), Theme::Cyberpunk);
    assert_eq!(Theme::from_config_value(Some("neon")), Theme::Cyberpunk);
    assert_eq!(Theme::Ember.palette().accent_primary, (255, 120, 78));
    assert_eq!(mask_secret("h\u{e9}llo"), "*****");
}

#[test]
fn form_port_and_secret_rules() {
    let mut form = TargetForm {
        name: "dev".to_string(),
        host: "h".to_string(),
        port: "99999".to_string(),
        user: "u".to_string(),
        password: "p".to_string(),
        ..Default::default()
    };
    assert_eq!(form.to_profile().unwrap_err().message(), "port must be a valid number");
    form.port = " 2022 ".to_string();
    assert_eq!(form.to_profile().unwrap().port, 2022);
    form.password = String::new();
    assert_eq!(form.to_profile().unwrap_err().message(), "password cannot be empty");
    let rows = form.lines();
    assert_eq!(rows.len(), 6);
    assert_eq!(rows[5].0, "Password");
}

fn target(name: &str, host: &str) -> TargetProfile {
    TargetProfile {
        name: name.to_string(),
        host: host.to_string(),
        port: 22,
        user: "u".to_string(),
        auth: AuthMethod::KeyFile { private_key: "~/.ssh/id".to_string(), passphrase: None },
    }
}

fn app_with_targets(targets: Vec<TargetProfile>) -> App {
    App::new(AppConfig { targets, theme: Some("synth".to_string()) }, Vec::new())
}

#[test]
fn app_starts_with_greeting() {
    let app = app_with_targets(Vec::new());
    assert_eq!(app.theme, Theme::Synth);
    assert_eq!(app.logs.len(), 3);
    assert_eq!(app.logs[1], "Theme loaded: Synth");
}

#[test]
fn quit_and_tab_keys() {
    let mut app = app_with_targets(Vec::new());
    assert!(matches!(app.on_key(KeyInput::Char('q')), Action::Quit));
    app.on_key(KeyInput::Char('3'));
    assert_eq!(app.tab, Tab::Exchange);
    app.on_key(KeyInput::Right);
    assert_eq!(app.tab, Tab::Console);
}

#[test]
fn add_target_through_dialog() {
    let mut app = app_with_targets(vec![target("one", "h1")]);
    app.on_key(KeyInput::Char('2'));
    app.on_key(KeyInput::Char('a'));
    assert!(matches!(app.modal, Modal::AddTarget(_)));
    for c in "two".chars() {
        app.on_key(KeyInput::Char(c));
    }
    app.on_key(KeyInput::Tab);
    for c in "h2".chars() {
        app.on_key(KeyInput::Char(c));
    }
    app.on_key(KeyInput::Tab);
    app.on_key(KeyInput::Tab);
    app.on_key(KeyInput::Char('u'));
    app.on_key(KeyInput::Tab);
    app.on_key(KeyInput::Tab);
    app.on_key(KeyInput::Char('s'));
    let action = app.on_key(KeyInput::Enter);
    match action {
        Action::SaveConfig { then_log } => {
            assert_eq!(then_log, "Added target 'two' (h2:22)");
            app.config_saved(None, then_log);
        }
        other => panic!("unexpected {other:?}"),
    }
    assert!(matches!(app.modal, Modal::Closed));
    assert_eq!(app.config.targets.len(), 2);
    assert_eq!(app.selected_target, 1);
    assert_eq!(app.logs.back().unwrap(), "Added target 'two' (h2:22)");
}

#[test]
fn duplicate_target_name_refused() {
    let mut app = app_with_targets(vec![target("one", "h1")]);
    app.on_key(KeyInput::Char('2'));
    app.on_key(KeyInput::Char('a'));
    for c in "ONE".chars() {
        app.on_key(KeyInput::Char(c));
    }
    app.on_key(KeyInput::Tab);
    app.on_key(KeyInput::Char('x'));
    app.on_key(KeyInput::Tab);
    app.on_key(KeyInput::Tab);
    app.on_key(KeyInput::Char('u'));
    app.on_key(KeyInput::Tab);
    app.on_key(KeyInput::Tab);
    app.on_key(KeyInput::Char('s'));
    assert!(matches!(app.on_key(KeyInput::Enter), Action::Nothing));
    assert_eq!(app.logs.back().unwrap(), "ERROR: target name 'ONE' already exists.");
    assert!(matches!(app.modal, Modal::AddTarget(_)));
    assert_eq!(app.config.targets.len(), 1);
}

#[test]
fn delete_target_clamps_selection() {
    let mut app = app_with_targets(vec![target("a", "h1"), target("b", "h2")]);
    app.on_key(KeyInput::Char('2'));
    app.on_key(KeyInput::Down);
    assert_eq!(app.selected_target, 1);
    match app.on_key(KeyInput::Char('d')) {
        Action::SaveConfig { then_log } => assert_eq!(then_log, "Deleted target 'b'."),
        other => panic!("unexpected {other:?}"),
    }
    assert_eq!(app.selected_target, 0);
    assert_eq!(app.config.targets.len(), 1);
}

#[test]
fn console_runs_commands_and_records_output() {
    let mut app = app_with_targets(vec![target("a", "h1")]);
    app.on_key(KeyInput::Char('4'));
    app.on_key(KeyInput::Char('e'));
    assert!(app.console_editing);
    for c in " uname ".chars() {
        app.on_key(KeyInput::Char(c));
    }
    match app.on_key(KeyInput::Enter) {
        Action::RunCommand { target, command } => {
            assert_eq!(target.name, "a");
            assert_eq!(command, "uname");
        }
        other => panic!("unexpected {other:?}"),
    }
    app.command_finished(Ok(CommandResult {
        stdout: "Linux\nx".to_string(),
        stderr: "warn\n".to_string(),
        exit_status: 0,
    }));
    let out: Vec<&str> = app.console_output.iter().map(|s| s.as_str()).collect();
    assert_eq!(out, vec!["$ uname", "Linux", "x", "[stderr] warn", "[exit 0]"]);
    assert_eq!(app.logs.back().unwrap(), "Remote command completed.");
}

#[test]
fn fetch_results_are_recorded() {
    let mut app = app_with_targets(vec![target("a", "h1")]);
    app.on_key(KeyInput::Char('3'));
    assert!(matches!(app.on_key(KeyInput::Char('f')), Action::FetchRemoteKeys { .. }));
    app.remote_keys_fetched(Ok(vec!["k1".to_string(), "k2".to_string()]));
    assert_eq!(app.logs.back().unwrap(), "Fetched 2 remote key(s).");
    app.on_key(KeyInput::Up);
    assert_eq!(app.selected_remote_key, 1);
}

#[test]
fn log_is_bounded() {
    let mut app = app_with_targets(Vec::new());
    for _ in 0..(MAX_LOG_LINES + 10) {
        app.on_key(KeyInput::Char('2'));
        app.on_key(KeyInput::Char('r'));
    }
    assert_eq!(app.logs.len(), MAX_LOG_LINES);
    assert_eq!(app.logs.back().unwrap(), "Target list loaded from local config.");
}

#[test]
fn theme_key_cycles_and_saves() {
    let mut app = app_with_targets(Vec::new());
    match app.on_key(KeyInput::F(2)) {
        Action::SaveConfig { then_log } => assert_eq!(then_log, "Theme switched to Matrix"),
        other => panic!("unexpected {other:?}"),
    }
    assert_eq!(app.config.theme.as_deref(), Some("matrix"));
    app.config_saved(Some("disk full".to_string()), "Theme switched to Matrix".to_string());
    let n = app.logs.len();
    assert_eq!(app.logs[n - 2], "ERROR: failed to save config: disk full");
}
