use cyberdeck::models::{AppConfig, AuthMethod, CommandResult, LocalKey, TargetProfile};
use cyberdeck::screen::{
    action_hint_texts, active_key_text, active_target_text, console_hint_text, console_output_text,
    footer_text, key_detail_rows, key_summary_text, recent_log_lines, session_state_text,
    target_detail_rows, target_route_text, tone_of, Tone,
};
use cyberdeck::tui::Tab;
use cyberdeck::tui_state::App;

fn screen_target() -> TargetProfile {
    TargetProfile {
        name: "box".to_string(),
        host: "10.0.0.9".to_string(),
        port: 2222,
        user: "ops".to_string(),
        auth: AuthMethod::Password { password: "s3cret".to_string() },
    }
}

fn screen_key(comment: &str, private: Option<&str>) -> LocalKey {
    LocalKey {
        name: "id_ed25519".to_string(),
        algorithm: "ssh-ed25519".to_string(),
        comment: comment.to_string(),
        fingerprint: "SHA256:abc".to_string(),
        public_key_path: "/home/u/.ssh/id_ed25519.pub".to_string(),
        private_key_path: private.map(|p| p.to_string()),
    }
}

#[test]
fn log_tones() {
    assert_eq!(tone_of("ERROR: link failed: x"), Tone::Error);
    assert_eq!(tone_of("Remote command completed."), Tone::Success);
    assert_eq!(tone_of("Link OK: h:22"), Tone::Success);
    assert_eq!(tone_of("Generated key 'a' at b"), Tone::Success);
    assert_eq!(tone_of("Console ready."), Tone::Plain);
    assert_eq!(tone_of(" ERROR: not at the start"), Tone::Plain);
    assert_eq!(tone_of("ERROR"), Tone::Plain);
}

#[test]
fn log_panel_shows_the_latest_six_lines() {
    let mut app = App::new(AppConfig::default(), Vec::new());
    let greeting = recent_log_lines(&app);
    assert_eq!(greeting.len(), 3);
    assert_eq!(greeting[0].0, "SYSTEM BOOT: Cyberdeck cyber deck ready.");
    for i in 0..10 {
        app.log(format!("line {i}"));
    }
    app.log("ERROR: last".to_string());
    let lines = recent_log_lines(&app);
    let texts: Vec<&str> = lines.iter().map(|(l, _)| l.as_str()).collect();
    assert_eq!(texts, vec!["line 5", "line 6", "line 7", "line 8", "line 9", "ERROR: last"]);
    assert_eq!(lines[5].1, Tone::Error);
    assert_eq!(lines[0].1, Tone::Plain);
}

#[test]
fn key_details_fill_in_missing_values() {
    let rows = key_detail_rows(&screen_key("", None));
    assert_eq!(rows.len(), 6);
    assert_eq!(rows[0], ("Name: ".to_string(), "id_ed25519".to_string()));
    assert_eq!(rows[3], ("Comment: ".to_string(), "(none)".to_string()));
    assert_eq!(rows[5], ("Private: ".to_string(), "(missing)".to_string()));
    let rows = key_detail_rows(&screen_key("me@host", Some("/home/u/.ssh/id_ed25519")));
    assert_eq!(rows[3].1, "me@host");
    assert_eq!(rows[5].1, "/home/u/.ssh/id_ed25519");
    assert_eq!(key_summary_text(&screen_key("", None)), "id_ed25519 [ssh-ed25519]");
}

#[test]
fn target_details_hide_the_password() {
    let rows = target_detail_rows(&screen_target());
    assert_eq!(
        rows,
        vec![
            ("Name: ".to_string(), "box".to_string()),
            ("Endpoint: ".to_string(), "10.0.0.9:2222".to_string()),
            ("User: ".to_string(), "ops".to_string()),
            ("Auth: ".to_string(), "password".to_string()),
        ]
    );
    assert!(rows.iter().all(|(_, v)| !v.contains("s3cret")));
    assert_eq!(target_route_text(&screen_target()), "box -> ops@10.0.0.9:2222");
}

#[test]
fn selection_and_session_texts() {
    let mut app = App::new(AppConfig::default(), Vec::new());
    assert_eq!(active_target_text(&app), "none");
    assert_eq!(active_key_text(&app), "none");
    assert_eq!(session_state_text(&app), "target none | output lines 0");
    assert_eq!(console_output_text(&app), "No command output yet.");

    app = App::new(
        AppConfig { targets: vec![screen_target()], theme: None },
        vec![screen_key("", None)],
    );
    assert_eq!(active_target_text(&app), "ops@10.0.0.9:2222");
    assert_eq!(active_key_text(&app), "id_ed25519 [ssh-ed25519]");
    app.command_finished(Ok(CommandResult {
        stdout: "a\nb\n".to_string(),
        stderr: String::new(),
        exit_status: 0,
    }));
    assert_eq!(session_state_text(&app), "target ops@10.0.0.9:2222 | output lines 3");
    assert_eq!(console_output_text(&app), "a\nb\n[exit 0]");
}

#[test]
fn hints_per_tab() {
    assert_eq!(
        footer_text(Tab::Targets, false),
        "TARGETS  a add  d delete  t test  F2 theme  arrows navigate  1-4 tabs  q quit"
    );
    assert_eq!(
        footer_text(Tab::Console, true),
        "CONSOLE  typing mode active  Enter run  Esc stop editing  F2 theme  q quit"
    );
    assert_eq!(
        console_hint_text(false),
        "Select target with Up/Down. Press e or Enter to type, r to run."
    );
    assert_eq!(action_hint_texts(Tab::Targets, true).len(), 4);
    assert_eq!(
        action_hint_texts(Tab::Targets, false),
        vec!["a = add target", "d = delete target", "t = test connection"]
    );
    assert_eq!(action_hint_texts(Tab::Exchange, false), vec!["x = exchange key", "f = fetch keys"]);
    assert!(action_hint_texts(Tab::Console, true).is_empty());
}
