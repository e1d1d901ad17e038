//! What the screen shows, as plain text: the details of the selection, the
//! list entries, the status texts, the recent log lines with their tone, and
//! the key hints. Drawing them is left to the caller.
use vstd::prelude::*;

use crate::models::{endpoint_of, AuthMethod, AuthView, LocalKey, LocalKeyView, TargetProfile, TargetView};
use crate::text::{contains, contains_str, decimal, join, join_from, occurs_at, owned, push_decimal, starts_with};
use crate::tui::Tab;
use crate::tui_state::{sel_key, sel_target, target_label, target_label_text, App};

verus! {

/// How many of the latest log lines the event log panel shows.
pub const LOG_PANEL_LINES: usize = 6;

/// How a log line is shown: as an error, as good news, or plainly.
#[derive(Clone, Copy, Debug, PartialEq, Eq, Structural)]
pub enum Tone {
    Error,
    Success,
    Plain,
}

/// A line starting with `ERROR:` is an error; one that reports a completed
/// operation, a working link or a generated key is good news.
pub open spec fn log_tone(line: Seq<char>) -> Tone {
    if occurs_at(line, "ERROR:"@, 0) {
        Tone::Error
    } else if contains(line, "completed"@) || contains(line, "Link OK"@) || contains(
        line,
        "Generated"@,
    ) {
        Tone::Success
    } else {
        Tone::Plain
    }
}

/// The tone of a log line.
pub fn tone_of(line: &str) -> (r: Tone)
    ensures
        r == log_tone(line@),
{
    if starts_with(line, "ERROR:") {
        Tone::Error
    } else if contains_str(line, "completed") || contains_str(line, "Link OK") || contains_str(
        line,
        "Generated",
    ) {
        Tone::Success
    } else {
        Tone::Plain
    }
}

/// The log lines the panel shows: the latest ones, oldest first.
pub open spec fn recent_logs(logs: Seq<Seq<char>>) -> Seq<Seq<char>> {
    if logs.len() > LOG_PANEL_LINES {
        logs.skip(logs.len() - LOG_PANEL_LINES)
    } else {
        logs
    }
}

pub open spec fn toned(lines: Seq<Seq<char>>) -> Seq<(Seq<char>, Tone)> {
    lines.map_values(|l: Seq<char>| (l, log_tone(l)))
}

pub open spec fn toned_view(v: Seq<(String, Tone)>) -> Seq<(Seq<char>, Tone)> {
    v.map_values(|p: (String, Tone)| (p.0@, p.1))
}

/// The log lines the event log panel shows, each with its tone.
pub fn recent_log_lines(app: &App) -> (r: Vec<(String, Tone)>)
    ensures
        toned_view(r@) == toned(recent_logs(app@.logs)),
{
    let n = app.logs.len();
    let start = if n > LOG_PANEL_LINES {
        n - LOG_PANEL_LINES
    } else {
        0
    };
    let ghost want = toned(recent_logs(app@.logs));
    let mut r: Vec<(String, Tone)> = Vec::new();
    let mut i = start;
    while i < n
        invariant
            n == app.logs@.len(),
            start <= i <= n,
            start == (if n > LOG_PANEL_LINES { n - LOG_PANEL_LINES } else { 0 }),
            want == toned(recent_logs(app@.logs)),
            want.len() == n - start,
            r@.len() == i - start,
            forall|k: int| 0 <= k < r@.len() ==> #[trigger] toned_view(r@)[k] == want[k],
        decreases n - i,
    {
        let line = app.logs[i].clone();
        let tone = tone_of(line.as_str());
        assert(app@.logs[i as int] == line@);
        assert(want[i - start] == (line@, tone));
        let ghost before = toned_view(r@);
        r.push((line, tone));
        assert(toned_view(r@) =~= before.push(want[i - start]));
        i += 1;
    }
    assert(toned_view(r@) =~= want);
    r
}

pub open spec fn pairs_view(v: Seq<(String, String)>) -> Seq<(Seq<char>, Seq<char>)> {
    v.map_values(|p: (String, String)| (p.0@, p.1@))
}

/// The labelled details of a local key.
pub open spec fn key_rows(k: LocalKeyView) -> Seq<(Seq<char>, Seq<char>)> {
    seq![
        ("Name: "@, k.name),
        ("Algorithm: "@, k.algorithm),
        ("Fingerprint: "@, k.fingerprint),
        ("Comment: "@, if k.comment.len() == 0 {
            "(none)"@
        } else {
            k.comment
        }),
        ("Public: "@, k.public_key_path),
        ("Private: "@, match k.private_key_path {
            Some(p) => p,
            None => "(missing)"@,
        }),
    ]
}

fn row(label: &str, value: String) -> (r: (String, String))
    ensures
        r.0@ == label@,
        r.1@ == value@,
{
    (owned(label), value)
}

/// The labelled details shown for a local key.
pub fn key_detail_rows(k: &LocalKey) -> (r: Vec<(String, String)>)
    ensures
        pairs_view(r@) == key_rows(k@),
{
    let comment = if k.comment.as_str().is_empty() {
        owned("(none)")
    } else {
        k.comment.clone()
    };
    let private = match &k.private_key_path {
        Some(p) => p.clone(),
        None => owned("(missing)"),
    };
    let r = vec![
        row("Name: ", k.name.clone()),
        row("Algorithm: ", k.algorithm.clone()),
        row("Fingerprint: ", k.fingerprint.clone()),
        row("Comment: ", comment),
        row("Public: ", k.public_key_path.clone()),
        row("Private: ", private),
    ];
    assert(pairs_view(r@) =~= key_rows(k@));
    r
}

/// The labelled details of a target.
pub open spec fn target_rows(t: TargetView) -> Seq<(Seq<char>, Seq<char>)> {
    seq![
        ("Name: "@, t.name),
        ("Endpoint: "@, endpoint_of(t.host, t.port)),
        ("User: "@, t.user),
        ("Auth: "@, match t.auth {
            AuthView::Password { .. } => "password"@,
            AuthView::KeyFile { .. } => "key file"@,
        }),
    ]
}

/// The labelled details shown for a target; its secrets are not among them.
pub fn target_detail_rows(t: &TargetProfile) -> (r: Vec<(String, String)>)
    ensures
        pairs_view(r@) == target_rows(t@),
{
    let auth = match &t.auth {
        AuthMethod::Password { .. } => owned("password"),
        AuthMethod::KeyFile { .. } => owned("key file"),
    };
    let r = vec![
        row("Name: ", t.name.clone()),
        row("Endpoint: ", t.endpoint()),
        row("User: ", t.user.clone()),
        row("Auth: ", auth),
    ];
    assert(pairs_view(r@) =~= target_rows(t@));
    r
}

/// `name [algorithm]`: how a local key is listed.
pub open spec fn key_summary(k: LocalKeyView) -> Seq<char> {
    k.name + " ["@ + k.algorithm + "]"@
}

pub fn key_summary_text(k: &LocalKey) -> (r: String)
    ensures
        r@ == key_summary(k@),
{
    let mut r = k.name.clone();
    r.append(" [");
    r.append(k.algorithm.as_str());
    r.append("]");
    r
}

/// `name -> user@host:port`: how a target is listed where a key is sent.
pub open spec fn target_route(t: TargetView) -> Seq<char> {
    t.name + " -> "@ + target_label(t)
}

pub fn target_route_text(t: &TargetProfile) -> (r: String)
    ensures
        r@ == target_route(t@),
{
    let mut r = t.name.clone();
    r.append(" -> ");
    let label = target_label_text(t);
    r.append(label.as_str());
    r
}

/// The selected target as `user@host:port`, or `none`.
pub open spec fn active_target(v: crate::tui_state::AppView) -> Seq<char> {
    match sel_target(v) {
        Some(t) => target_label(t),
        None => "none"@,
    }
}

pub fn active_target_text(app: &App) -> (r: String)
    ensures
        r@ == active_target(app@),
{
    match app.selected_target() {
        Some(t) => target_label_text(t),
        None => owned("none"),
    }
}

/// The selected key as `name [algorithm]`, or `none`.
pub open spec fn active_key(v: crate::tui_state::AppView) -> Seq<char> {
    match sel_key(v) {
        Some(k) => key_summary(k),
        None => "none"@,
    }
}

pub fn active_key_text(app: &App) -> (r: String)
    ensures
        r@ == active_key(app@),
{
    match app.selected_key() {
        Some(k) => key_summary_text(k),
        None => owned("none"),
    }
}

/// The console's session line: the selected target and how many output
/// lines there are; with no target selected, `target none | output lines 0`.
pub open spec fn session_state(v: crate::tui_state::AppView) -> Seq<char> {
    match sel_target(v) {
        Some(t) => "target "@ + target_label(t) + " | output lines "@ + decimal(
            v.console_output.len(),
        ),
        None => "target none | output lines 0"@,
    }
}

pub fn session_state_text(app: &App) -> (r: String)
    ensures
        r@ == session_state(app@),
{
    match app.selected_target() {
        Some(t) => {
            let mut r = owned("target ");
            let label = target_label_text(t);
            r.append(label.as_str());
            r.append(" | output lines ");
            push_decimal(&mut r, app.console_output.len() as u64);
            r
        },
        None => owned("target none | output lines 0"),
    }
}

/// The console output, one line after the other, or a note that there is none.
pub open spec fn console_output(v: crate::tui_state::AppView) -> Seq<char> {
    if v.console_output.len() == 0 {
        "No command output yet."@
    } else {
        join(v.console_output, seq!['\n'])
    }
}

pub fn console_output_text(app: &App) -> (r: String)
    ensures
        r@ == console_output(app@),
{
    let n = app.console_output.len();
    if n == 0 {
        return owned("No command output yet.");
    }
    let mut lines: Vec<String> = Vec::new();
    let mut i: usize = 0;
    while i < n
        invariant
            n == app.console_output@.len(),
            i <= n,
            lines@.len() == i,
            forall|k: int| 0 <= k < i ==> #[trigger] lines@[k]@ == app@.console_output[k],
        decreases n - i,
    {
        lines.push(app.console_output[i].clone());
        i += 1;
    }
    let r = join_from(&lines, 0, "\n");
    proof {
        reveal_strlit("\n");
        assert("\n"@ =~= seq!['\n']);
        assert(lines@.subrange(0, lines@.len() as int).map_values(|s: String| s@)
            =~= app@.console_output);
    }
    r
}

/// The key hints at the bottom of each tab.
pub open spec fn footer(tab: Tab, console_editing: bool) -> Seq<char> {
    match tab {
        Tab::Keys => "KEYS  g generate  i import key  r refresh  F2 theme  arrows navigate  1-4 tabs  q quit"@,
        Tab::Targets => "TARGETS  a add  d delete  t test  F2 theme  arrows navigate  1-4 tabs  q quit"@,
        Tab::Exchange => "EXCHANGE  x push selected key  f fetch remote keys  F2 theme  arrows navigate  1-4 tabs  q quit"@,
        Tab::Console => if console_editing {
            "CONSOLE  typing mode active  Enter run  Esc stop editing  F2 theme  q quit"@
        } else {
            "CONSOLE  e edit command  r run command  c clear output  F2 theme  arrows pick target  q quit"@
        },
    }
}

pub fn footer_text(tab: Tab, console_editing: bool) -> (r: &'static str)
    ensures
        r@ == footer(tab, console_editing),
{
    match tab {
        Tab::Keys => "KEYS  g generate  i import key  r refresh  F2 theme  arrows navigate  1-4 tabs  q quit",
        Tab::Targets => "TARGETS  a add  d delete  t test  F2 theme  arrows navigate  1-4 tabs  q quit",
        Tab::Exchange => "EXCHANGE  x push selected key  f fetch remote keys  F2 theme  arrows navigate  1-4 tabs  q quit",
        Tab::Console => if console_editing {
            "CONSOLE  typing mode active  Enter run  Esc stop editing  F2 theme  q quit"
        } else {
            "CONSOLE  e edit command  r run command  c clear output  F2 theme  arrows pick target  q quit"
        },
    }
}

/// The hint under the console's command line.
pub open spec fn console_hint(console_editing: bool) -> Seq<char> {
    if console_editing {
        "Editing mode: type command, Enter executes, Esc exits edit mode"@
    } else {
        "Select target with Up/Down. Press e or Enter to type, r to run."@
    }
}

pub fn console_hint_text(console_editing: bool) -> (r: &'static str)
    ensures
        r@ == console_hint(console_editing),
{
    if console_editing {
        "Editing mode: type command, Enter executes, Esc exits edit mode"
    } else {
        "Select target with Up/Down. Press e or Enter to type, r to run."
    }
}

/// The actions listed beside a tab's details; the refresh action of the
/// Targets tab is listed only while a target is selected.
pub open spec fn action_hints(tab: Tab, has_selection: bool) -> Seq<Seq<char>> {
    match tab {
        Tab::Keys => seq![
            "g = generate key"@,
            "i = import existing private key"@,
            "r = refresh key list"@,
        ],
        Tab::Targets => if has_selection {
            seq![
                "a = add target"@,
                "d = delete target"@,
                "t = test connection"@,
                "r = refresh view"@,
            ]
        } else {
            seq!["a = add target"@, "d = delete target"@, "t = test connection"@]
        },
        Tab::Exchange => seq!["x = exchange key"@, "f = fetch keys"@],
        Tab::Console => seq![],
    }
}

pub open spec fn static_view(v: Seq<&'static str>) -> Seq<Seq<char>> {
    v.map_values(|s: &'static str| s@)
}

pub fn action_hint_texts(tab: Tab, has_selection: bool) -> (r: Vec<&'static str>)
    ensures
        static_view(r@) == action_hints(tab, has_selection),
{
    let r = match tab {
        Tab::Keys => vec!["g = generate key", "i = import existing private key", "r = refresh key list"],
        Tab::Targets => if has_selection {
            vec!["a = add target", "d = delete target", "t = test connection", "r = refresh view"]
        } else {
            vec!["a = add target", "d = delete target", "t = test connection"]
        },
        Tab::Exchange => vec!["x = exchange key", "f = fetch keys"],
        Tab::Console => Vec::new(),
    };
    assert(static_view(r@) =~= action_hints(tab, has_selection));
    r
}

} // verus!
