//! The state of the terminal interface and its transitions. A key press
//! changes the state and may ask for outside work (saving the configuration,
//! scanning keys, SSH operations); the outcome of that work is handed back to
//! the state, which records it.
use std::collections::VecDeque;

use vstd::prelude::*;

use crate::models::{
    endpoint_of, AppConfig, ConfigView, CommandResult, LocalKey, LocalKeyView, TargetProfile,
    TargetView, opt_view,
};
use crate::ssh_config::clash;
use crate::text::{
    decimal, eq_ignore_ascii_case, eq_ignore_case, lines, owned, push_decimal, split_lines,
    str_eq, trim, trim_str,
};
use crate::tui::{
    form_profile, generate_form_edited, import_form_edited, moved_index, move_index, next_of_three,
    next_tab, prev_of_three, prev_tab, tab_at, target_fields_len, target_form_edited, theme_at,
    AuthFormKind, Edit, GenerateFormView, GenerateKeyForm, ImportFormView,
    ImportKeyForm, Tab, TargetForm, TargetFormView, Theme, lemma_theme_saved_name_read_back,
};

verus! {

/// Capacity of the event log; the oldest line goes when it is full.
pub const MAX_LOG_LINES: usize = 200;

/// Capacity of the console output; the oldest line goes when it is full.
pub const MAX_CONSOLE_LINES: usize = 400;

/// A key press, as the interface sees it.
#[derive(Clone, Copy, Debug, PartialEq, Eq, Structural)]
pub enum KeyInput {
    Char(char),
    F(u8),
    Left,
    Right,
    Up,
    Down,
    Enter,
    Esc,
    Backspace,
    Tab,
    BackTab,
    Other,
}

/// The dialog on top of the tabs, if any.
#[derive(Debug)]
pub enum Modal {
    Closed,
    AddTarget(TargetForm),
    GenerateKey(GenerateKeyForm),
    ImportKey(ImportKeyForm),
}

pub enum ModalView {
    Closed,
    AddTarget(TargetFormView),
    GenerateKey(GenerateFormView),
    ImportKey(ImportFormView),
}

impl View for Modal {
    type V = ModalView;

    open spec fn view(&self) -> ModalView {
        match self {
            Modal::Closed => ModalView::Closed,
            Modal::AddTarget(f) => ModalView::AddTarget(f@),
            Modal::GenerateKey(f) => ModalView::GenerateKey(f@),
            Modal::ImportKey(f) => ModalView::ImportKey(f@),
        }
    }
}

/// Outside work that a transition asks for. The caller performs it and hands
/// the outcome to the matching method of `App`.
#[derive(Debug)]
#[allow(inconsistent_fields)]
pub enum Action {
    Nothing,
    Quit,
    /// Save the configuration, then report with `App::config_saved`.
    SaveConfig { then_log: String },
    /// Scan the local keys, then report with `App::keys_scanned`.
    ScanKeys,
    /// Generate a key, then report with `App::key_generated`.
    GenerateKey { name: String, comment: String, passphrase: Option<String> },
    /// Import a private key, then report with `App::key_imported`.
    ImportKey { name: Option<String>, private_key: String, passphrase: Option<String> },
    /// Test the connection, then report with `App::connection_tested`.
    TestConnection { target: TargetProfile },
    /// Install the key on the target, then report with `App::key_exchanged`.
    ExchangeKey { target: TargetProfile, key: LocalKey },
    /// Read the target's authorized keys, then report with `App::remote_keys_fetched`.
    FetchRemoteKeys { target: TargetProfile },
    /// Run the command on the target, then report with `App::command_finished`.
    RunCommand { target: TargetProfile, command: String },
}

#[allow(inconsistent_fields)]
pub enum ActionView {
    Nothing,
    Quit,
    SaveConfig { then_log: Seq<char> },
    ScanKeys,
    GenerateKey { name: Seq<char>, comment: Seq<char>, passphrase: Option<Seq<char>> },
    ImportKey { name: Option<Seq<char>>, private_key: Seq<char>, passphrase: Option<Seq<char>> },
    TestConnection { target: TargetView },
    ExchangeKey { target: TargetView, key: LocalKeyView },
    FetchRemoteKeys { target: TargetView },
    RunCommand { target: TargetView, command: Seq<char> },
}

impl View for Action {
    type V = ActionView;

    open spec fn view(&self) -> ActionView {
        match self {
            Action::Nothing => ActionView::Nothing,
            Action::Quit => ActionView::Quit,
            Action::SaveConfig { then_log } => ActionView::SaveConfig { then_log: then_log@ },
            Action::ScanKeys => ActionView::ScanKeys,
            Action::GenerateKey { name, comment, passphrase } => ActionView::GenerateKey {
                name: name@,
                comment: comment@,
                passphrase: opt_view(*passphrase),
            },
            Action::ImportKey { name, private_key, passphrase } => ActionView::ImportKey {
                name: opt_view(*name),
                private_key: private_key@,
                passphrase: opt_view(*passphrase),
            },
            Action::TestConnection { target } => ActionView::TestConnection { target: target@ },
            Action::ExchangeKey { target, key } => ActionView::ExchangeKey {
                target: target@,
                key: key@,
            },
            Action::FetchRemoteKeys { target } => ActionView::FetchRemoteKeys { target: target@ },
            Action::RunCommand { target, command } => ActionView::RunCommand {
                target: target@,
                command: command@,
            },
        }
    }
}

/// The whole state of the interface.
#[derive(Debug)]
pub struct App {
    pub tab: Tab,
    pub modal: Modal,
    pub config: AppConfig,
    pub local_keys: Vec<LocalKey>,
    pub selected_key: usize,
    pub selected_target: usize,
    pub remote_keys: Vec<String>,
    pub selected_remote_key: usize,
    pub logs: VecDeque<String>,
    pub console_input: String,
    pub console_output: VecDeque<String>,
    pub console_editing: bool,
    pub theme: Theme,
}

pub struct AppView {
    pub tab: Tab,
    pub modal: ModalView,
    pub config: ConfigView,
    pub local_keys: Seq<LocalKeyView>,
    pub selected_key: nat,
    pub selected_target: nat,
    pub remote_keys: Seq<Seq<char>>,
    pub selected_remote_key: nat,
    pub logs: Seq<Seq<char>>,
    pub console_input: Seq<char>,
    pub console_output: Seq<Seq<char>>,
    pub console_editing: bool,
    pub theme: Theme,
}

pub open spec fn texts(v: Seq<String>) -> Seq<Seq<char>> {
    v.map_values(|s: String| s@)
}

pub open spec fn key_views(v: Seq<LocalKey>) -> Seq<LocalKeyView> {
    v.map_values(|k: LocalKey| k@)
}

impl View for App {
    type V = AppView;

    open spec fn view(&self) -> AppView {
        AppView {
            tab: self.tab,
            modal: self.modal@,
            config: self.config@,
            local_keys: key_views(self.local_keys@),
            selected_key: self.selected_key as nat,
            selected_target: self.selected_target as nat,
            remote_keys: texts(self.remote_keys@),
            selected_remote_key: self.selected_remote_key as nat,
            logs: texts(self.logs@),
            console_input: self.console_input@,
            console_output: texts(self.console_output@),
            console_editing: self.console_editing,
            theme: self.theme,
        }
    }
}

/// An index that is inside its list, or 0 for an empty list.
pub open spec fn index_ok(i: nat, len: nat) -> bool {
    (len == 0 && i == 0) || i < len
}

pub open spec fn modal_wf(m: ModalView) -> bool {
    match m {
        ModalView::Closed => true,
        ModalView::AddTarget(f) => f.field < target_fields_len(f.auth_kind),
        ModalView::GenerateKey(f) => f.field < 3,
        ModalView::ImportKey(f) => f.field < 3,
    }
}

/// The state is consistent: bounded log and console, selections inside
/// their lists, the active form field inside its form.
pub open spec fn state_wf(v: AppView) -> bool {
    &&& v.logs.len() <= MAX_LOG_LINES
    &&& v.console_output.len() <= MAX_CONSOLE_LINES
    &&& index_ok(v.selected_key, v.local_keys.len())
    &&& index_ok(v.selected_target, v.config.targets.len())
    &&& index_ok(v.selected_remote_key, v.remote_keys.len())
    &&& modal_wf(v.modal)
}

/// `q` with `m` appended, the oldest line dropped first when `q` is full.
pub open spec fn bounded_push(q: Seq<Seq<char>>, m: Seq<char>, cap: nat) -> Seq<Seq<char>> {
    (if q.len() >= cap {
        q.drop_first()
    } else {
        q
    }).push(m)
}

pub open spec fn logged(v: AppView, m: Seq<char>) -> AppView {
    AppView { logs: bounded_push(v.logs, m, MAX_LOG_LINES as nat), ..v }
}

pub open spec fn console_logged(v: AppView, m: Seq<char>) -> AppView {
    AppView { console_output: bounded_push(v.console_output, m, MAX_CONSOLE_LINES as nat), ..v }
}

/// `v` with each line of `ls`, prefixed by `prefix`, added to the console.
pub open spec fn console_lines(v: AppView, ls: Seq<Seq<char>>, prefix: Seq<char>) -> AppView
    decreases ls.len(),
{
    if ls.len() == 0 {
        v
    } else {
        console_logged(console_lines(v, ls.drop_last(), prefix), prefix + ls.last())
    }
}

/// `min(i, len - 1)`, or 0 for an empty list.
pub open spec fn clamp_index(i: nat, len: nat) -> nat {
    if len == 0 {
        0
    } else if i < len {
        i
    } else {
        (len - 1) as nat
    }
}

pub open spec fn clamped(v: AppView) -> AppView {
    AppView {
        selected_key: clamp_index(v.selected_key, v.local_keys.len()),
        selected_target: clamp_index(v.selected_target, v.config.targets.len()),
        selected_remote_key: clamp_index(v.selected_remote_key, v.remote_keys.len()),
        ..v
    }
}

pub open spec fn sel_target(v: AppView) -> Option<TargetView> {
    if v.selected_target < v.config.targets.len() {
        Some(v.config.targets[v.selected_target as int])
    } else {
        None
    }
}

pub open spec fn sel_key(v: AppView) -> Option<LocalKeyView> {
    if v.selected_key < v.local_keys.len() {
        Some(v.local_keys[v.selected_key as int])
    } else {
        None
    }
}

pub open spec fn endpoint_text(t: TargetView) -> Seq<char> {
    endpoint_of(t.host, t.port)
}

/// `user@host:port`.
pub open spec fn target_label(t: TargetView) -> Seq<char> {
    t.user + "@"@ + endpoint_text(t)
}

pub open spec fn with_modal(v: AppView, m: ModalView) -> AppView {
    AppView { modal: m, ..v }
}

pub open spec fn theme_cycled(v: AppView, forward: bool) -> (AppView, ActionView) {
    let t = if forward {
        theme_at(((v.theme.spec_index() + 1) % 5) as nat)
    } else {
        theme_at(((v.theme.spec_index() + 4) % 5) as nat)
    };
    (
        AppView {
            theme: t,
            config: ConfigView { theme: Some(t.spec_config_value()), ..v.config },
            ..v
        },
        ActionView::SaveConfig { then_log: "Theme switched to "@ + t.spec_title() },
    )
}

pub open spec fn fetch_requested(v: AppView) -> (AppView, ActionView) {
    match sel_target(v) {
        None => (logged(v, "No target selected."@), ActionView::Nothing),
        Some(t) => (
            logged(v, "Fetching authorized_keys from "@ + endpoint_text(t) + "..."@),
            ActionView::FetchRemoteKeys { target: t },
        ),
    }
}

pub open spec fn test_requested(v: AppView) -> (AppView, ActionView) {
    match sel_target(v) {
        None => (logged(v, "No target selected."@), ActionView::Nothing),
        Some(t) => (
            logged(v, "Testing SSH link to "@ + target_label(t) + "..."@),
            ActionView::TestConnection { target: t },
        ),
    }
}

pub open spec fn exchange_requested(v: AppView) -> (AppView, ActionView) {
    match sel_target(v) {
        None => (logged(v, "No target selected."@), ActionView::Nothing),
        Some(t) => match sel_key(v) {
            None => (logged(v, "No local key selected."@), ActionView::Nothing),
            Some(k) => (
                logged(v, "Exchanging key '"@ + k.name + "' to "@ + target_label(t) + "..."@),
                ActionView::ExchangeKey { target: t, key: k },
            ),
        },
    }
}

pub open spec fn run_requested(v: AppView, command: Seq<char>) -> (AppView, ActionView) {
    match sel_target(v) {
        None => (logged(v, "No target selected."@), ActionView::Nothing),
        Some(t) => if trim(command).len() == 0 {
            (logged(v, "No command to execute."@), ActionView::Nothing)
        } else {
            (
                logged(
                    console_logged(v, "$ "@ + command),
                    "Running remote command on "@ + target_label(t) + "..."@,
                ),
                ActionView::RunCommand { target: t, command },
            )
        },
    }
}

pub open spec fn tab_refreshed(v: AppView) -> (AppView, ActionView) {
    match v.tab {
        Tab::Keys => (v, ActionView::ScanKeys),
        Tab::Targets => (logged(v, "Target list loaded from local config."@), ActionView::Nothing),
        Tab::Exchange => fetch_requested(v),
        Tab::Console => (logged(v, "Console ready."@), ActionView::Nothing),
    }
}

pub open spec fn selection_moved(v: AppView, delta: int) -> AppView {
    match v.tab {
        Tab::Keys => AppView {
            selected_key: moved_index(v.selected_key, v.local_keys.len(), delta),
            ..v
        },
        Tab::Exchange => if v.remote_keys.len() > 0 {
            AppView {
                selected_remote_key: moved_index(v.selected_remote_key, v.remote_keys.len(), delta),
                ..v
            }
        } else {
            AppView {
                selected_target: moved_index(v.selected_target, v.config.targets.len(), delta),
                ..v
            }
        },
        _ => AppView {
            selected_target: moved_index(v.selected_target, v.config.targets.len(), delta),
            ..v
        },
    }
}

pub open spec fn default_target_form() -> TargetFormView {
    TargetFormView {
        field: 0,
        name: seq![],
        host: seq![],
        port: "22"@,
        user: seq![],
        auth_kind: AuthFormKind::Password,
        password: seq![],
        private_key: seq![],
        passphrase: seq![],
    }
}

pub open spec fn tab_action(v: AppView, k: KeyInput) -> (AppView, ActionView) {
    match v.tab {
        Tab::Keys => match k {
            KeyInput::Char('g') => (
                logged(
                    with_modal(
                        v,
                        ModalView::GenerateKey(
                            GenerateFormView {
                                field: 0,
                                name: seq![],
                                comment: seq![],
                                passphrase: seq![],
                            },
                        ),
                    ),
                    "Generate-key modal opened."@,
                ),
                ActionView::Nothing,
            ),
            KeyInput::Char('i') => (
                logged(
                    with_modal(
                        v,
                        ModalView::ImportKey(
                            ImportFormView {
                                field: 0,
                                name: seq![],
                                private_key: seq![],
                                passphrase: seq![],
                            },
                        ),
                    ),
                    "Import-key modal opened."@,
                ),
                ActionView::Nothing,
            ),
            _ => (v, ActionView::Nothing),
        },
        Tab::Targets => match k {
            KeyInput::Char('a') => (
                logged(
                    with_modal(v, ModalView::AddTarget(default_target_form())),
                    "Add-target modal opened."@,
                ),
                ActionView::Nothing,
            ),
            KeyInput::Char('d') => if v.config.targets.len() == 0 {
                (logged(v, "No target selected to delete."@), ActionView::Nothing)
            } else {
                let removed = v.config.targets[v.selected_target as int];
                (
                    clamped(
                        AppView {
                            config: ConfigView {
                                targets: v.config.targets.remove(v.selected_target as int),
                                ..v.config
                            },
                            ..v
                        },
                    ),
                    ActionView::SaveConfig {
                        then_log: "Deleted target '"@ + removed.name + "'."@,
                    },
                )
            },
            KeyInput::Char('t') => test_requested(v),
            _ => (v, ActionView::Nothing),
        },
        Tab::Exchange => match k {
            KeyInput::Char('x') => exchange_requested(v),
            KeyInput::Char('f') => fetch_requested(v),
            _ => (v, ActionView::Nothing),
        },
        Tab::Console => match k {
            KeyInput::Char('e') | KeyInput::Enter => (
                logged(
                    AppView { console_editing: true, ..v },
                    "Console input mode enabled (Esc to stop)."@,
                ),
                ActionView::Nothing,
            ),
            KeyInput::Char('c') => (
                logged(AppView { console_output: seq![], ..v }, "Console output cleared."@),
                ActionView::Nothing,
            ),
            KeyInput::Char('r') => run_requested(v, trim(v.console_input)),
            _ => (v, ActionView::Nothing),
        },
    }
}

pub open spec fn console_edit_key(v: AppView, k: KeyInput) -> (AppView, ActionView) {
    match k {
        KeyInput::Esc => (
            logged(AppView { console_editing: false, ..v }, "Console input mode disabled."@),
            ActionView::Nothing,
        ),
        KeyInput::Enter => if trim(v.console_input).len() == 0 {
            (logged(v, "Console command is empty."@), ActionView::Nothing)
        } else {
            run_requested(v, trim(v.console_input))
        },
        KeyInput::Backspace => (
            AppView {
                console_input: if v.console_input.len() > 0 {
                    v.console_input.drop_last()
                } else {
                    v.console_input
                },
                ..v
            },
            ActionView::Nothing,
        ),
        KeyInput::Char(c) => (
            AppView { console_input: v.console_input.push(c), ..v },
            ActionView::Nothing,
        ),
        _ => (v, ActionView::Nothing),
    }
}

/// A key press with no dialog open.
pub open spec fn main_key(v: AppView, k: KeyInput) -> (AppView, ActionView) {
    if v.console_editing && v.tab == Tab::Console {
        console_edit_key(v, k)
    } else {
        match k {
            KeyInput::Char('q') => (v, ActionView::Quit),
            KeyInput::Char('1') => (AppView { tab: Tab::Keys, ..v }, ActionView::Nothing),
            KeyInput::Char('2') => (AppView { tab: Tab::Targets, ..v }, ActionView::Nothing),
            KeyInput::Char('3') => (AppView { tab: Tab::Exchange, ..v }, ActionView::Nothing),
            KeyInput::Char('4') => (AppView { tab: Tab::Console, ..v }, ActionView::Nothing),
            KeyInput::F(2) => theme_cycled(v, true),
            KeyInput::Left => (
                AppView { tab: tab_at(((v.tab.spec_index() + 3) % 4) as nat), ..v },
                ActionView::Nothing,
            ),
            KeyInput::Right => (
                AppView { tab: tab_at(((v.tab.spec_index() + 1) % 4) as nat), ..v },
                ActionView::Nothing,
            ),
            KeyInput::Up => (selection_moved(v, -1), ActionView::Nothing),
            KeyInput::Down => (selection_moved(v, 1), ActionView::Nothing),
            KeyInput::Char('r') if v.tab != Tab::Console => tab_refreshed(v),
            _ => tab_action(v, k),
        }
    }
}

/// A target with the name of `p`, ignoring ASCII case.
pub open spec fn name_taken(ts: Seq<TargetView>, p: TargetView) -> bool {
    exists|i: int| 0 <= i < ts.len() && eq_ignore_case(#[trigger] ts[i].name, p.name)
}

/// A target with the endpoint of `p`: same port and user, host ignoring ASCII case.
pub open spec fn endpoint_taken(ts: Seq<TargetView>, p: TargetView) -> bool {
    exists|i: int|
        0 <= i < ts.len() && #[trigger] ts[i].port == p.port && ts[i].user == p.user
            && eq_ignore_case(ts[i].host, p.host)
}

pub open spec fn form_with_kind(f: TargetFormView, kind: AuthFormKind) -> TargetFormView {
    TargetFormView {
        auth_kind: kind,
        field: if f.field >= target_fields_len(kind) {
            (target_fields_len(kind) - 1) as nat
        } else {
            f.field
        },
        ..f
    }
}

pub open spec fn form_next(f: TargetFormView) -> TargetFormView {
    TargetFormView { field: (f.field + 1) % target_fields_len(f.auth_kind), ..f }
}

pub open spec fn form_prev(f: TargetFormView) -> TargetFormView {
    TargetFormView {
        field: if f.field == 0 {
            (target_fields_len(f.auth_kind) - 1) as nat
        } else {
            (f.field - 1) as nat
        },
        ..f
    }
}

/// Saving the form: a valid target whose name and endpoint are free is added
/// and selected, and the dialog closes; otherwise the error is logged and the
/// dialog stays.
pub open spec fn target_form_submitted(v: AppView, f: TargetFormView) -> (AppView, ActionView) {
    let open = with_modal(v, ModalView::AddTarget(f));
    match form_profile(f) {
        Err(e) => (logged(open, "ERROR: "@ + e.spec_message()), ActionView::Nothing),
        Ok(p) => if name_taken(v.config.targets, p) {
            (
                logged(open, "ERROR: target name '"@ + p.name + "' already exists."@),
                ActionView::Nothing,
            )
        } else if endpoint_taken(v.config.targets, p) {
            (
                logged(open, "ERROR: target "@ + p.user + "@"@ + endpoint_text(p) + " already exists."@),
                ActionView::Nothing,
            )
        } else {
            (
                AppView {
                    config: ConfigView { targets: v.config.targets.push(p), ..v.config },
                    selected_target: v.config.targets.len(),
                    ..v
                },
                ActionView::SaveConfig {
                    then_log: "Added target '"@ + p.name + "' ("@ + endpoint_text(p) + ")"@,
                },
            )
        },
    }
}

/// A key press in the add-target dialog; `v` has the dialog closed.
pub open spec fn target_modal_key(v: AppView, f: TargetFormView, k: KeyInput) -> (AppView, ActionView) {
    let stay = |g: TargetFormView| (with_modal(v, ModalView::AddTarget(g)), ActionView::Nothing);
    match k {
        KeyInput::Esc => (logged(v, "Add target canceled."@), ActionView::Nothing),
        KeyInput::Tab | KeyInput::Down => stay(form_next(f)),
        KeyInput::BackTab | KeyInput::Up => stay(form_prev(f)),
        KeyInput::Left if f.field == 4 => stay(form_with_kind(f, AuthFormKind::Password)),
        KeyInput::Right if f.field == 4 => stay(form_with_kind(f, AuthFormKind::KeyFile)),
        KeyInput::Char(' ') if f.field == 4 => stay(
            form_with_kind(
                f,
                if f.auth_kind == AuthFormKind::Password {
                    AuthFormKind::KeyFile
                } else {
                    AuthFormKind::Password
                },
            ),
        ),
        KeyInput::Enter => if f.field + 1 >= target_fields_len(f.auth_kind) {
            target_form_submitted(v, f)
        } else {
            stay(form_next(f))
        },
        KeyInput::Backspace => stay(target_form_edited(f, Edit::Erase)),
        KeyInput::Char(c) => stay(target_form_edited(f, Edit::Type(c))),
        _ => stay(f),
    }
}

pub open spec fn nonempty_or_none(s: Seq<char>) -> Option<Seq<char>> {
    if s.len() == 0 {
        None
    } else {
        Some(s)
    }
}

/// A key press in the generate-key dialog; `v` has the dialog closed.
pub open spec fn generate_modal_key(v: AppView, f: GenerateFormView, k: KeyInput) -> (AppView, ActionView) {
    let stay = |g: GenerateFormView| (with_modal(v, ModalView::GenerateKey(g)), ActionView::Nothing);
    match k {
        KeyInput::Esc => (logged(v, "Generate key canceled."@), ActionView::Nothing),
        KeyInput::Tab | KeyInput::Down => stay(GenerateFormView { field: next_of_three(f.field), ..f }),
        KeyInput::BackTab | KeyInput::Up => stay(GenerateFormView { field: prev_of_three(f.field), ..f }),
        KeyInput::Enter => if f.field + 1 >= 3 {
            (
                with_modal(v, ModalView::GenerateKey(f)),
                ActionView::GenerateKey {
                    name: trim(f.name),
                    comment: trim(f.comment),
                    passphrase: nonempty_or_none(f.passphrase),
                },
            )
        } else {
            stay(GenerateFormView { field: next_of_three(f.field), ..f })
        },
        KeyInput::Backspace => stay(generate_form_edited(f, Edit::Erase)),
        KeyInput::Char(c) => stay(generate_form_edited(f, Edit::Type(c))),
        _ => stay(f),
    }
}

/// A key press in the import-key dialog; `v` has the dialog closed.
pub open spec fn import_modal_key(v: AppView, f: ImportFormView, k: KeyInput) -> (AppView, ActionView) {
    let stay = |g: ImportFormView| (with_modal(v, ModalView::ImportKey(g)), ActionView::Nothing);
    match k {
        KeyInput::Esc => (logged(v, "Import key canceled."@), ActionView::Nothing),
        KeyInput::Tab | KeyInput::Down => stay(ImportFormView { field: next_of_three(f.field), ..f }),
        KeyInput::BackTab | KeyInput::Up => stay(ImportFormView { field: prev_of_three(f.field), ..f }),
        KeyInput::Enter => if f.field + 1 >= 3 {
            (
                with_modal(v, ModalView::ImportKey(f)),
                ActionView::ImportKey {
                    name: nonempty_or_none(trim(f.name)),
                    private_key: trim(f.private_key),
                    passphrase: nonempty_or_none(f.passphrase),
                },
            )
        } else {
            stay(ImportFormView { field: next_of_three(f.field), ..f })
        },
        KeyInput::Backspace => stay(import_form_edited(f, Edit::Erase)),
        KeyInput::Char(c) => stay(import_form_edited(f, Edit::Type(c))),
        _ => stay(f),
    }
}

/// The effect of a key press on the interface.
pub open spec fn key_effect(v: AppView, k: KeyInput) -> (AppView, ActionView) {
    let closed = with_modal(v, ModalView::Closed);
    match v.modal {
        ModalView::Closed => main_key(v, k),
        ModalView::AddTarget(f) => target_modal_key(closed, f, k),
        ModalView::GenerateKey(f) => generate_modal_key(closed, f, k),
        ModalView::ImportKey(f) => import_modal_key(closed, f, k),
    }
}

/// The interface as it starts: the Keys tab, nothing selected yet, the theme
/// of the configuration, and three greeting lines in the log.
pub open spec fn initial_state(config: ConfigView, keys: Seq<LocalKeyView>) -> AppView {
    let theme = Theme::spec_from_config_value(config.theme);
    AppView {
        tab: Tab::Keys,
        modal: ModalView::Closed,
        config,
        local_keys: keys,
        selected_key: 0,
        selected_target: 0,
        remote_keys: seq![],
        selected_remote_key: 0,
        logs: seq![
            "SYSTEM BOOT: Cyberdeck cyber deck ready."@,
            "Theme loaded: "@ + theme.spec_title(),
            "Tip: press 1-4 to switch tabs, F2 to change theme, q to quit."@,
        ],
        console_input: seq![],
        console_output: seq![],
        console_editing: false,
        theme,
    }
}

pub open spec fn config_saved_state(v: AppView, error: Option<Seq<char>>, then_log: Seq<char>) -> AppView {
    logged(
        match error {
            Some(e) => logged(v, "ERROR: failed to save config: "@ + e),
            None => v,
        },
        then_log,
    )
}

pub open spec fn keys_scanned_state(v: AppView, result: Result<Seq<LocalKeyView>, Seq<char>>) -> AppView {
    match result {
        Ok(keys) => logged(clamped(AppView { local_keys: keys, ..v }), "Local key cache refreshed."@),
        Err(e) => logged(v, "ERROR: failed to refresh keys: "@ + e),
    }
}

pub open spec fn key_generated_effect(v: AppView, result: Result<LocalKeyView, Seq<char>>) -> (AppView, ActionView) {
    match result {
        Ok(k) => (
            logged(
                with_modal(v, ModalView::Closed),
                "Generated key '"@ + k.name + "' at "@ + k.public_key_path,
            ),
            ActionView::ScanKeys,
        ),
        Err(e) => (logged(v, "ERROR: failed to generate key: "@ + e), ActionView::Nothing),
    }
}

pub open spec fn key_imported_effect(v: AppView, result: Result<LocalKeyView, Seq<char>>) -> (AppView, ActionView) {
    match result {
        Ok(k) => (
            logged(
                with_modal(v, ModalView::Closed),
                "Imported key '"@ + k.name + "' from "@ + match k.private_key_path {
                    Some(p) => p,
                    None => "(unknown)"@,
                },
            ),
            ActionView::ScanKeys,
        ),
        Err(e) => (logged(v, "ERROR: failed to import key: "@ + e), ActionView::Nothing),
    }
}

pub open spec fn connection_tested_state(v: AppView, t: TargetView, result: Result<(), Seq<char>>) -> AppView {
    match result {
        Ok(()) => logged(v, "Link OK: "@ + endpoint_text(t)),
        Err(e) => logged(v, "ERROR: link failed: "@ + e),
    }
}

pub open spec fn key_exchanged_effect(v: AppView, result: Result<(), Seq<char>>) -> (AppView, ActionView) {
    match result {
        Ok(()) => fetch_requested(logged(v, "Key exchange completed."@)),
        Err(e) => (logged(v, "ERROR: key exchange failed: "@ + e), ActionView::Nothing),
    }
}

pub open spec fn remote_keys_state(v: AppView, result: Result<Seq<Seq<char>>, Seq<char>>) -> AppView {
    match result {
        Ok(keys) => logged(
            clamped(AppView { remote_keys: keys, ..v }),
            "Fetched "@ + decimal(keys.len()) + " remote key(s)."@,
        ),
        Err(e) => logged(v, "ERROR: remote key fetch failed: "@ + e),
    }
}

pub open spec fn command_state(v: AppView, result: Result<(Seq<char>, Seq<char>, i32), Seq<char>>) -> AppView {
    match result {
        Ok((stdout, stderr, status)) => logged(
            console_logged(
                console_lines(console_lines(v, lines(stdout), seq![]), lines(stderr), "[stderr] "@),
                "[exit "@ + crate::text::signed_decimal(status as int) + "]"@,
            ),
            "Remote command completed."@,
        ),
        Err(e) => logged(console_logged(v, "[error] "@ + e), "ERROR: remote command failed: "@ + e),
    }
}

pub open spec fn text_result(r: Result<String, String>) -> Result<Seq<char>, Seq<char>> {
    match r {
        Ok(s) => Ok(s@),
        Err(e) => Err(e@),
    }
}

fn text2(a: &str, b: &str) -> (r: String)
    ensures
        r@ == a@ + b@,
{
    let mut r = owned(a);
    r.append(b);
    r
}

fn text3(a: &str, b: &str, c: &str) -> (r: String)
    ensures
        r@ == a@ + b@ + c@,
{
    let mut r = owned(a);
    r.append(b);
    r.append(c);
    r
}

/// `user@host:port` of a target.
pub fn target_label_text(t: &TargetProfile) -> (r: String)
    ensures
        r@ == target_label(t@),
{
    let e = t.endpoint();
    text3(t.user.as_str(), "@", e.as_str())
}

fn name_is_taken(ts: &Vec<TargetProfile>, p: &TargetProfile) -> (r: bool)
    ensures
        r == name_taken(ts@.map_values(|t: TargetProfile| t@), p@),
{
    let ghost tv = ts@.map_values(|t: TargetProfile| t@);
    let mut i: usize = 0;
    while i < ts.len()
        invariant
            tv == ts@.map_values(|t: TargetProfile| t@),
            i <= ts@.len(),
            forall|k: int| 0 <= k < i ==> !eq_ignore_case(#[trigger] tv[k].name, p@.name),
        decreases ts@.len() - i,
    {
        assert(tv[i as int] == ts@[i as int]@);
        if eq_ignore_ascii_case(ts[i].name.as_str(), p.name.as_str()) {
            assert(eq_ignore_case(tv[i as int].name, p@.name));
            return true;
        }
        i += 1;
    }
    false
}

fn endpoint_is_taken(ts: &Vec<TargetProfile>, p: &TargetProfile) -> (r: bool)
    ensures
        r == endpoint_taken(ts@.map_values(|t: TargetProfile| t@), p@),
{
    let ghost tv = ts@.map_values(|t: TargetProfile| t@);
    let mut i: usize = 0;
    while i < ts.len()
        invariant
            tv == ts@.map_values(|t: TargetProfile| t@),
            i <= ts@.len(),
            forall|k: int|
                0 <= k < i ==> !(#[trigger] tv[k].port == p@.port && tv[k].user == p@.user
                    && eq_ignore_case(tv[k].host, p@.host)),
        decreases ts@.len() - i,
    {
        assert(tv[i as int] == ts@[i as int]@);
        let t = &ts[i];
        if t.port == p.port && str_eq(t.user.as_str(), p.user.as_str()) && eq_ignore_ascii_case(
            t.host.as_str(),
            p.host.as_str(),
        ) {
            assert(tv[i as int].port == p@.port && tv[i as int].user == p@.user && eq_ignore_case(
                tv[i as int].host,
                p@.host,
            ));
            return true;
        }
        i += 1;
    }
    false
}

proof fn lemma_console_lines_wf(v: AppView, ls: Seq<Seq<char>>, prefix: Seq<char>)
    requires
        state_wf(v),
    ensures
        state_wf(console_lines(v, ls, prefix)),
        console_lines(v, ls, prefix) == (AppView {
            console_output: console_lines(v, ls, prefix).console_output,
            ..v
        }),
    decreases ls.len(),
{
    if ls.len() > 0 {
        lemma_console_lines_wf(v, ls.drop_last(), prefix);
    }
}

proof fn lemma_moved_index(i: nat, len: nat, delta: int)
    requires
        index_ok(i, len),
    ensures
        index_ok(moved_index(i, len, delta), len),
{
    if len > 0 && delta > 0 {
        assert((i + 1) % len < len) by (nonlinear_arith)
            requires
                len > 0,
        ;
    }
}

proof fn lemma_clamped_wf(v: AppView)
    requires
        v.logs.len() <= MAX_LOG_LINES,
        v.console_output.len() <= MAX_CONSOLE_LINES,
        modal_wf(v.modal),
    ensures
        state_wf(clamped(v)),
{
}

proof fn lemma_tab_action_wf(v: AppView, k: KeyInput)
    requires
        state_wf(v),
    ensures
        state_wf(tab_action(v, k).0),
{
    if v.tab == Tab::Targets && k == KeyInput::Char('d') && v.config.targets.len() > 0 {
        let removed = AppView {
            config: ConfigView {
                targets: v.config.targets.remove(v.selected_target as int),
                ..v.config
            },
            ..v
        };
        lemma_clamped_wf(removed);
    }
}

proof fn lemma_main_key_wf(v: AppView, k: KeyInput)
    requires
        state_wf(v),
    ensures
        state_wf(main_key(v, k).0),
{
    lemma_moved_index(v.selected_key, v.local_keys.len(), -1);
    lemma_moved_index(v.selected_key, v.local_keys.len(), 1);
    lemma_moved_index(v.selected_target, v.config.targets.len(), -1);
    lemma_moved_index(v.selected_target, v.config.targets.len(), 1);
    lemma_moved_index(v.selected_remote_key, v.remote_keys.len(), -1);
    lemma_moved_index(v.selected_remote_key, v.remote_keys.len(), 1);
    lemma_tab_action_wf(v, k);
}

proof fn lemma_target_modal_wf(v: AppView, f: TargetFormView, k: KeyInput)
    requires
        state_wf(v),
        v.modal is Closed,
        f.field < target_fields_len(f.auth_kind),
    ensures
        state_wf(target_modal_key(v, f, k).0),
{
    assert((f.field + 1) % target_fields_len(f.auth_kind) < target_fields_len(f.auth_kind))
        by (nonlinear_arith)
        requires
            target_fields_len(f.auth_kind) > 0,
    ;
}

/// Every key press keeps the state consistent: the log and the console stay
/// within their capacities, every selection stays inside its list, and the
/// active field of an open dialog stays inside its form.
pub proof fn lemma_key_effect_wf(v: AppView, k: KeyInput)
    requires
        state_wf(v),
    ensures
        state_wf(key_effect(v, k).0),
{
    let closed = with_modal(v, ModalView::Closed);
    match v.modal {
        ModalView::Closed => lemma_main_key_wf(v, k),
        ModalView::AddTarget(f) => lemma_target_modal_wf(closed, f, k),
        ModalView::GenerateKey(f) => {},
        ModalView::ImportKey(f) => {},
    }
}

/// No two targets share a name (ignoring ASCII case) or an endpoint.
pub open spec fn targets_distinct(ts: Seq<TargetView>) -> bool {
    forall|i: int, j: int| 0 <= i < j < ts.len() ==> !clash(#[trigger] ts[i], #[trigger] ts[j])
}

proof fn lemma_distinct_remove(ts: Seq<TargetView>, i: int)
    requires
        targets_distinct(ts),
        0 <= i < ts.len(),
    ensures
        targets_distinct(ts.remove(i)),
{
    let r = ts.remove(i);
    assert forall|a: int, b: int| 0 <= a < b < r.len() implies !clash(
        #[trigger] r[a],
        #[trigger] r[b],
    ) by {
        let a2 = if a < i {
            a
        } else {
            a + 1
        };
        let b2 = if b < i {
            b
        } else {
            b + 1
        };
        assert(r[a] == ts[a2] && r[b] == ts[b2]);
    }
}

proof fn lemma_distinct_push(ts: Seq<TargetView>, p: TargetView)
    requires
        targets_distinct(ts),
        !name_taken(ts, p),
        !endpoint_taken(ts, p),
    ensures
        targets_distinct(ts.push(p)),
{
    let r = ts.push(p);
    assert forall|a: int, b: int| 0 <= a < b < r.len() implies !clash(
        #[trigger] r[a],
        #[trigger] r[b],
    ) by {
        assert(r[a] == ts[a]);
        if b < ts.len() {
            assert(r[b] == ts[b]);
        } else {
            assert(r[b] == p);
            if clash(ts[a], p) {
                if eq_ignore_case(ts[a].name, p.name) {
                    assert(name_taken(ts, p));
                } else {
                    assert(endpoint_taken(ts, p));
                }
            }
        }
    }
}

/// Key presses never give two targets the same name or the same endpoint:
/// a target is added only when both are free, and deleting keeps the others.
pub proof fn lemma_key_effect_keeps_targets_distinct(v: AppView, k: KeyInput)
    requires
        state_wf(v),
        targets_distinct(v.config.targets),
    ensures
        targets_distinct(key_effect(v, k).0.config.targets),
{
    let ts = v.config.targets;
    match v.modal {
        ModalView::Closed => {
            if !(v.console_editing && v.tab == Tab::Console) && v.tab == Tab::Targets && k
                == KeyInput::Char('d') && ts.len() > 0 {
                lemma_distinct_remove(ts, v.selected_target as int);
            }
        },
        ModalView::AddTarget(f) => {
            if k == KeyInput::Enter && f.field + 1 >= target_fields_len(f.auth_kind) {
                match form_profile(f) {
                    Ok(p) => {
                        if !name_taken(ts, p) && !endpoint_taken(ts, p) {
                            lemma_distinct_push(ts, p);
                        }
                    },
                    Err(_) => {},
                }
            }
        },
        _ => {},
    }
}

/// A theme chosen with the theme key is saved so that the interface starts
/// with it again: starting from the configuration it leaves, whatever the
/// local keys, gives the same theme.
pub proof fn lemma_theme_choice_survives_restart(
    v: AppView,
    forward: bool,
    keys: Seq<LocalKeyView>,
)
    ensures
        initial_state(theme_cycled(v, forward).0.config, keys).theme == theme_cycled(
            v,
            forward,
        ).0.theme,
{
    lemma_theme_saved_name_read_back(theme_cycled(v, forward).0.theme);
}

impl App {
    /// The state is consistent; see `state_wf`.
    pub open spec fn wf(&self) -> bool {
        state_wf(self@)
    }

    /// The interface at start-up, with the saved configuration and the local keys.
    pub fn new(config: AppConfig, local_keys: Vec<LocalKey>) -> (r: App)
        ensures
            r@ == initial_state(config@, key_views(local_keys@)),
            r.wf(),
    {
        let theme = Theme::from_config_value(
            match &config.theme {
                Some(t) => Some(t.as_str()),
                None => None,
            },
        );
        let mut app = App {
            tab: Tab::Keys,
            modal: Modal::Closed,
            config,
            local_keys,
            selected_key: 0,
            selected_target: 0,
            remote_keys: Vec::new(),
            selected_remote_key: 0,
            logs: VecDeque::new(),
            console_input: String::new(),
            console_output: VecDeque::new(),
            console_editing: false,
            theme,
        };
        assert(texts(app.logs@) =~= Seq::<Seq<char>>::empty());
        assert(texts(app.console_output@) =~= Seq::<Seq<char>>::empty());
        assert(texts(app.remote_keys@) =~= Seq::<Seq<char>>::empty());
        app.log(owned("SYSTEM BOOT: Cyberdeck cyber deck ready."));
        app.log(text2("Theme loaded: ", theme.title()));
        app.log(owned("Tip: press 1-4 to switch tabs, F2 to change theme, q to quit."));
        assert(app@.logs =~= initial_state(config@, key_views(local_keys@)).logs);
        app
    }

    /// Appends a line to the event log, dropping the oldest line when full.
    pub fn log(&mut self, msg: String)
        ensures
            final(self)@ == logged(old(self)@, msg@),
    {
        let ghost m = msg@;
        let ghost before = texts(self.logs@);
        if self.logs.len() >= MAX_LOG_LINES {
            let _ = self.logs.pop_front();
        }
        self.logs.push_back(msg);
        assert(texts(self.logs@) =~= bounded_push(before, m, MAX_LOG_LINES as nat));
    }

    /// Appends a line to the console output, dropping the oldest line when full.
    pub fn console_push(&mut self, msg: String)
        ensures
            final(self)@ == console_logged(old(self)@, msg@),
    {
        let ghost m = msg@;
        let ghost before = texts(self.console_output@);
        if self.console_output.len() >= MAX_CONSOLE_LINES {
            let _ = self.console_output.pop_front();
        }
        self.console_output.push_back(msg);
        assert(texts(self.console_output@) =~= bounded_push(before, m, MAX_CONSOLE_LINES as nat));
    }

    /// Brings every selection back inside its list.
    pub fn clamp_selection(&mut self)
        ensures
            final(self)@ == clamped(old(self)@),
    {
        if self.local_keys.len() == 0 {
            self.selected_key = 0;
        } else if self.selected_key >= self.local_keys.len() {
            self.selected_key = self.local_keys.len() - 1;
        }
        if self.config.targets.len() == 0 {
            self.selected_target = 0;
        } else if self.selected_target >= self.config.targets.len() {
            self.selected_target = self.config.targets.len() - 1;
        }
        if self.remote_keys.len() == 0 {
            self.selected_remote_key = 0;
        } else if self.selected_remote_key >= self.remote_keys.len() {
            self.selected_remote_key = self.remote_keys.len() - 1;
        }
    }

    /// The selected target, if any.
    pub fn selected_target(&self) -> (r: Option<&TargetProfile>)
        ensures
            match r {
                Some(t) => sel_target(self@) == Some(t@),
                None => sel_target(self@) is None,
            },
    {
        if self.selected_target < self.config.targets.len() {
            Some(&self.config.targets[self.selected_target])
        } else {
            None
        }
    }

    /// The selected local key, if any.
    pub fn selected_key(&self) -> (r: Option<&LocalKey>)
        ensures
            match r {
                Some(k) => sel_key(self@) == Some(k@),
                None => sel_key(self@) is None,
            },
    {
        if self.selected_key < self.local_keys.len() {
            Some(&self.local_keys[self.selected_key])
        } else {
            None
        }
    }

    fn target_cloned(&self) -> (r: Option<TargetProfile>)
        ensures
            match r {
                Some(t) => sel_target(self@) == Some(t@),
                None => sel_target(self@) is None,
            },
    {
        match self.selected_target() {
            Some(t) => Some(t.clone()),
            None => None,
        }
    }

    fn key_cloned(&self) -> (r: Option<LocalKey>)
        ensures
            match r {
                Some(k) => sel_key(self@) == Some(k@),
                None => sel_key(self@) is None,
            },
    {
        match self.selected_key() {
            Some(k) => Some(k.clone()),
            None => None,
        }
    }

    /// Switches to the next (or previous) theme and asks to save the choice.
    pub fn cycle_theme(&mut self, forward: bool) -> (r: Action)
        ensures
            (final(self)@, r@) == theme_cycled(old(self)@, forward),
    {
        self.theme = if forward {
            self.theme.next()
        } else {
            self.theme.prev()
        };
        self.config.theme = Some(owned(self.theme.config_value()));
        Action::SaveConfig { then_log: text2("Theme switched to ", self.theme.title()) }
    }

    fn fetch_remote_keys(&mut self) -> (r: Action)
        ensures
            (final(self)@, r@) == fetch_requested(old(self)@),
    {
        let target = match self.target_cloned() {
            Some(t) => t,
            None => {
                self.log(owned("No target selected."));
                return Action::Nothing;
            },
        };
        let e = target.endpoint();
        self.log(text3("Fetching authorized_keys from ", e.as_str(), "..."));
        Action::FetchRemoteKeys { target }
    }

    fn test_selected_target(&mut self) -> (r: Action)
        ensures
            (final(self)@, r@) == test_requested(old(self)@),
    {
        let target = match self.target_cloned() {
            Some(t) => t,
            None => {
                self.log(owned("No target selected."));
                return Action::Nothing;
            },
        };
        let label = target_label_text(&target);
        self.log(text3("Testing SSH link to ", label.as_str(), "..."));
        Action::TestConnection { target }
    }

    fn exchange_selected_key(&mut self) -> (r: Action)
        ensures
            (final(self)@, r@) == exchange_requested(old(self)@),
    {
        let target = match self.target_cloned() {
            Some(t) => t,
            None => {
                self.log(owned("No target selected."));
                return Action::Nothing;
            },
        };
        let key = match self.key_cloned() {
            Some(k) => k,
            None => {
                self.log(owned("No local key selected."));
                return Action::Nothing;
            },
        };
        let label = target_label_text(&target);
        let mut m = text3("Exchanging key '", key.name.as_str(), "' to ");
        m.append(label.as_str());
        m.append("...");
        self.log(m);
        Action::ExchangeKey { target, key }
    }

    fn run_console_command(&mut self, command: String) -> (r: Action)
        ensures
            (final(self)@, r@) == run_requested(old(self)@, command@),
    {
        let target = match self.target_cloned() {
            Some(t) => t,
            None => {
                self.log(owned("No target selected."));
                return Action::Nothing;
            },
        };
        let t = trim_str(command.as_str());
        if t.as_str().is_empty() {
            self.log(owned("No command to execute."));
            return Action::Nothing;
        }
        self.console_push(text2("$ ", command.as_str()));
        let label = target_label_text(&target);
        self.log(text3("Running remote command on ", label.as_str(), "..."));
        Action::RunCommand { target, command }
    }

    fn refresh_current_tab(&mut self) -> (r: Action)
        ensures
            (final(self)@, r@) == tab_refreshed(old(self)@),
    {
        match self.tab {
            Tab::Keys => Action::ScanKeys,
            Tab::Targets => {
                self.log(owned("Target list loaded from local config."));
                Action::Nothing
            },
            Tab::Exchange => self.fetch_remote_keys(),
            Tab::Console => {
                self.log(owned("Console ready."));
                Action::Nothing
            },
        }
    }

    /// Moves the selection of the current tab by one, wrapping at the ends.
    pub fn move_selection(&mut self, delta: isize)
        requires
            old(self).wf(),
        ensures
            final(self)@ == selection_moved(old(self)@, delta as int),
    {
        match self.tab {
            Tab::Keys => move_index(&mut self.selected_key, self.local_keys.len(), delta),
            Tab::Exchange => {
                if self.remote_keys.len() > 0 {
                    move_index(&mut self.selected_remote_key, self.remote_keys.len(), delta);
                } else {
                    move_index(&mut self.selected_target, self.config.targets.len(), delta);
                }
            },
            _ => move_index(&mut self.selected_target, self.config.targets.len(), delta),
        }
    }

    fn handle_tab_action(&mut self, key: KeyInput) -> (r: Action)
        requires
            old(self).wf(),
        ensures
            (final(self)@, r@) == tab_action(old(self)@, key),
    {
        match self.tab {
            Tab::Keys => match key {
                KeyInput::Char('g') => {
                    self.modal = Modal::GenerateKey(GenerateKeyForm::default());
                    self.log(owned("Generate-key modal opened."));
                    Action::Nothing
                },
                KeyInput::Char('i') => {
                    self.modal = Modal::ImportKey(ImportKeyForm::default());
                    self.log(owned("Import-key modal opened."));
                    Action::Nothing
                },
                _ => Action::Nothing,
            },
            Tab::Targets => match key {
                KeyInput::Char('a') => {
                    self.modal = Modal::AddTarget(TargetForm::default());
                    self.log(owned("Add-target modal opened."));
                    Action::Nothing
                },
                KeyInput::Char('d') => {
                    if self.config.targets.len() == 0 {
                        self.log(owned("No target selected to delete."));
                        return Action::Nothing;
                    }
                    let ghost before = self.config@.targets;
                    let removed = self.config.targets.remove(self.selected_target);
                    assert(self.config@.targets =~= before.remove(old(self).selected_target as int));
                    self.clamp_selection();
                    Action::SaveConfig { then_log: text3("Deleted target '", removed.name.as_str(), "'.") }
                },
                KeyInput::Char('t') => self.test_selected_target(),
                _ => Action::Nothing,
            },
            Tab::Exchange => match key {
                KeyInput::Char('x') => self.exchange_selected_key(),
                KeyInput::Char('f') => self.fetch_remote_keys(),
                _ => Action::Nothing,
            },
            Tab::Console => match key {
                KeyInput::Char('e') | KeyInput::Enter => {
                    self.console_editing = true;
                    self.log(owned("Console input mode enabled (Esc to stop)."));
                    Action::Nothing
                },
                KeyInput::Char('c') => {
                    self.console_output.clear();
                    assert(texts(self.console_output@) =~= Seq::<Seq<char>>::empty());
                    self.log(owned("Console output cleared."));
                    Action::Nothing
                },
                KeyInput::Char('r') => {
                    let command = trim_str(self.console_input.as_str());
                    self.run_console_command(command)
                },
                _ => Action::Nothing,
            },
        }
    }

    fn on_key_console_edit(&mut self, key: KeyInput) -> (r: Action)
        ensures
            (final(self)@, r@) == console_edit_key(old(self)@, key),
    {
        match key {
            KeyInput::Esc => {
                self.console_editing = false;
                self.log(owned("Console input mode disabled."));
                Action::Nothing
            },
            KeyInput::Enter => {
                let command = trim_str(self.console_input.as_str());
                if command.as_str().is_empty() {
                    self.log(owned("Console command is empty."));
                    Action::Nothing
                } else {
                    self.run_console_command(command)
                }
            },
            KeyInput::Backspace => {
                let _ = crate::text::pop_char(&mut self.console_input);
                Action::Nothing
            },
            KeyInput::Char(c) => {
                crate::text::push_char(&mut self.console_input, c);
                Action::Nothing
            },
            _ => Action::Nothing,
        }
    }

    fn on_key_main(&mut self, key: KeyInput) -> (r: Action)
        requires
            old(self).wf(),
        ensures
            (final(self)@, r@) == main_key(old(self)@, key),
    {
        if self.console_editing && self.tab == Tab::Console {
            return self.on_key_console_edit(key);
        }
        match key {
            KeyInput::Char('q') => Action::Quit,
            KeyInput::Char('1') => {
                self.tab = Tab::Keys;
                Action::Nothing
            },
            KeyInput::Char('2') => {
                self.tab = Tab::Targets;
                Action::Nothing
            },
            KeyInput::Char('3') => {
                self.tab = Tab::Exchange;
                Action::Nothing
            },
            KeyInput::Char('4') => {
                self.tab = Tab::Console;
                Action::Nothing
            },
            KeyInput::F(2) => self.cycle_theme(true),
            KeyInput::Left => {
                self.tab = prev_tab(self.tab);
                Action::Nothing
            },
            KeyInput::Right => {
                self.tab = next_tab(self.tab);
                Action::Nothing
            },
            KeyInput::Up => {
                self.move_selection(-1);
                Action::Nothing
            },
            KeyInput::Down => {
                self.move_selection(1);
                Action::Nothing
            },
            KeyInput::Char('r') if self.tab != Tab::Console => self.refresh_current_tab(),
            _ => self.handle_tab_action(key),
        }
    }

    fn submit_target_form(&mut self, form: TargetForm) -> (r: Action)
        requires
            old(self).modal is Closed,
        ensures
            (final(self)@, r@) == target_form_submitted(old(self)@, form@),
    {
        match form.to_profile() {
            Err(e) => {
                self.modal = Modal::AddTarget(form);
                self.log(text2("ERROR: ", e.message()));
                Action::Nothing
            },
            Ok(profile) => {
                if name_is_taken(&self.config.targets, &profile) {
                    self.modal = Modal::AddTarget(form);
                    self.log(text3("ERROR: target name '", profile.name.as_str(), "' already exists."));
                    return Action::Nothing;
                }
                if endpoint_is_taken(&self.config.targets, &profile) {
                    self.modal = Modal::AddTarget(form);
                    let e = profile.endpoint();
                    let mut m = text3("ERROR: target ", profile.user.as_str(), "@");
                    m.append(e.as_str());
                    m.append(" already exists.");
                    self.log(m);
                    return Action::Nothing;
                }
                let e = profile.endpoint();
                let mut m = text3("Added target '", profile.name.as_str(), "' (");
                m.append(e.as_str());
                m.append(")");
                let ghost before = self.config@.targets;
                let ghost pv = profile@;
                self.config.targets.push(profile);
                assert(self.config@.targets =~= before.push(pv));
                self.selected_target = self.config.targets.len() - 1;
                Action::SaveConfig { then_log: m }
            },
        }
    }

    fn on_key_target_modal(&mut self, key: KeyInput, form: TargetForm) -> (r: Action)
        requires
            old(self).modal is Closed,
            form.wf(),
        ensures
            (final(self)@, r@) == target_modal_key(old(self)@, form@, key),
    {
        let mut form = form;
        match key {
            KeyInput::Esc => {
                self.log(owned("Add target canceled."));
                return Action::Nothing;
            },
            KeyInput::Tab | KeyInput::Down => form.next_field(),
            KeyInput::BackTab | KeyInput::Up => form.prev_field(),
            KeyInput::Left if form.field == 4 => form.set_auth_kind(AuthFormKind::Password),
            KeyInput::Right if form.field == 4 => form.set_auth_kind(AuthFormKind::KeyFile),
            KeyInput::Char(' ') if form.field == 4 => {
                let next = if form.auth_kind == AuthFormKind::Password {
                    AuthFormKind::KeyFile
                } else {
                    AuthFormKind::Password
                };
                form.set_auth_kind(next);
            },
            KeyInput::Enter => {
                if form.field + 1 >= form.fields_len() {
                    return self.submit_target_form(form);
                } else {
                    form.next_field();
                }
            },
            KeyInput::Backspace => form.edit_active_field(Edit::Erase),
            KeyInput::Char(c) => form.edit_active_field(Edit::Type(c)),
            _ => {},
        }
        self.modal = Modal::AddTarget(form);
        Action::Nothing
    }

    fn on_key_generate_modal(&mut self, key: KeyInput, form: GenerateKeyForm) -> (r: Action)
        requires
            old(self).modal is Closed,
            form.wf(),
        ensures
            (final(self)@, r@) == generate_modal_key(old(self)@, form@, key),
    {
        let mut form = form;
        match key {
            KeyInput::Esc => {
                self.log(owned("Generate key canceled."));
                return Action::Nothing;
            },
            KeyInput::Tab | KeyInput::Down => form.next_field(),
            KeyInput::BackTab | KeyInput::Up => form.prev_field(),
            KeyInput::Enter => {
                if form.field + 1 >= form.fields_len() {
                    let name = trim_str(form.name.as_str());
                    let comment = trim_str(form.comment.as_str());
                    let passphrase = if form.passphrase.as_str().is_empty() {
                        None
                    } else {
                        Some(form.passphrase.clone())
                    };
                    self.modal = Modal::GenerateKey(form);
                    return Action::GenerateKey { name, comment, passphrase };
                } else {
                    form.next_field();
                }
            },
            KeyInput::Backspace => form.edit_active_field(Edit::Erase),
            KeyInput::Char(c) => form.edit_active_field(Edit::Type(c)),
            _ => {},
        }
        self.modal = Modal::GenerateKey(form);
        Action::Nothing
    }

    fn on_key_import_modal(&mut self, key: KeyInput, form: ImportKeyForm) -> (r: Action)
        requires
            old(self).modal is Closed,
            form.wf(),
        ensures
            (final(self)@, r@) == import_modal_key(old(self)@, form@, key),
    {
        let mut form = form;
        match key {
            KeyInput::Esc => {
                self.log(owned("Import key canceled."));
                return Action::Nothing;
            },
            KeyInput::Tab | KeyInput::Down => form.next_field(),
            KeyInput::BackTab | KeyInput::Up => form.prev_field(),
            KeyInput::Enter => {
                if form.field + 1 >= form.fields_len() {
                    let name = trim_str(form.name.as_str());
                    let name = if name.as_str().is_empty() {
                        None
                    } else {
                        Some(name)
                    };
                    let private_key = trim_str(form.private_key.as_str());
                    let passphrase = if form.passphrase.as_str().is_empty() {
                        None
                    } else {
                        Some(form.passphrase.clone())
                    };
                    self.modal = Modal::ImportKey(form);
                    return Action::ImportKey { name, private_key, passphrase };
                } else {
                    form.next_field();
                }
            },
            KeyInput::Backspace => form.edit_active_field(Edit::Erase),
            KeyInput::Char(c) => form.edit_active_field(Edit::Type(c)),
            _ => {},
        }
        self.modal = Modal::ImportKey(form);
        Action::Nothing
    }

    /// Handles a key press; the result says what outside work to perform.
    pub fn on_key(&mut self, key: KeyInput) -> (r: Action)
        requires
            old(self).wf(),
        ensures
            (final(self)@, r@) == key_effect(old(self)@, key),
            final(self).wf(),
    {
        let mut modal = Modal::Closed;
        std::mem::swap(&mut modal, &mut self.modal);
        let r = match modal {
            Modal::Closed => self.on_key_main(key),
            Modal::AddTarget(form) => self.on_key_target_modal(key, form),
            Modal::GenerateKey(form) => self.on_key_generate_modal(key, form),
            Modal::ImportKey(form) => self.on_key_import_modal(key, form),
        };
        proof {
            lemma_key_effect_wf(old(self)@, key);
        }
        r
    }

    /// Records the outcome of saving the configuration, then the line that
    /// the transition asked to log after the save.
    pub fn config_saved(&mut self, error: Option<String>, then_log: String)
        requires
            old(self).wf(),
        ensures
            final(self)@ == config_saved_state(old(self)@, opt_view(error), then_log@),
            final(self).wf(),
    {
        if let Some(e) = error {
            self.log(text2("ERROR: failed to save config: ", e.as_str()));
        }
        self.log(then_log);
    }

    /// Records the outcome of scanning the local keys.
    pub fn keys_scanned(&mut self, result: Result<Vec<LocalKey>, String>)
        requires
            old(self).wf(),
        ensures
            final(self)@ == keys_scanned_state(
                old(self)@,
                match result {
                    Ok(keys) => Ok(key_views(keys@)),
                    Err(e) => Err(e@),
                },
            ),
            final(self).wf(),
    {
        match result {
            Ok(keys) => {
                self.local_keys = keys;
                self.clamp_selection();
                self.log(owned("Local key cache refreshed."));
            },
            Err(e) => {
                self.log(text2("ERROR: failed to refresh keys: ", e.as_str()));
            },
        }
    }

    /// Records the outcome of generating a key; on success the dialog closes
    /// and the keys are to be scanned again.
    pub fn key_generated(&mut self, result: Result<LocalKey, String>) -> (r: Action)
        requires
            old(self).wf(),
        ensures
            (final(self)@, r@) == key_generated_effect(
                old(self)@,
                match result {
                    Ok(k) => Ok(k@),
                    Err(e) => Err(e@),
                },
            ),
            final(self).wf(),
    {
        match result {
            Ok(k) => {
                self.modal = Modal::Closed;
                let mut m = text3("Generated key '", k.name.as_str(), "' at ");
                m.append(k.public_key_path.as_str());
                self.log(m);
                Action::ScanKeys
            },
            Err(e) => {
                self.log(text2("ERROR: failed to generate key: ", e.as_str()));
                Action::Nothing
            },
        }
    }

    /// Records the outcome of importing a key; on success the dialog closes
    /// and the keys are to be scanned again.
    pub fn key_imported(&mut self, result: Result<LocalKey, String>) -> (r: Action)
        requires
            old(self).wf(),
        ensures
            (final(self)@, r@) == key_imported_effect(
                old(self)@,
                match result {
                    Ok(k) => Ok(k@),
                    Err(e) => Err(e@),
                },
            ),
            final(self).wf(),
    {
        match result {
            Ok(k) => {
                self.modal = Modal::Closed;
                let mut m = text3("Imported key '", k.name.as_str(), "' from ");
                match &k.private_key_path {
                    Some(p) => m.append(p.as_str()),
                    None => m.append("(unknown)"),
                }
                self.log(m);
                Action::ScanKeys
            },
            Err(e) => {
                self.log(text2("ERROR: failed to import key: ", e.as_str()));
                Action::Nothing
            },
        }
    }

    /// Records the outcome of a connection test of `target`.
    pub fn connection_tested(&mut self, target: &TargetProfile, result: Result<(), String>)
        requires
            old(self).wf(),
        ensures
            final(self)@ == connection_tested_state(
                old(self)@,
                target@,
                match result {
                    Ok(()) => Ok(()),
                    Err(e) => Err(e@),
                },
            ),
            final(self).wf(),
    {
        match result {
            Ok(()) => {
                let e = target.endpoint();
                self.log(text2("Link OK: ", e.as_str()));
            },
            Err(e) => {
                self.log(text2("ERROR: link failed: ", e.as_str()));
            },
        }
    }

    /// Records the outcome of a key exchange; on success the remote keys are
    /// to be fetched again.
    pub fn key_exchanged(&mut self, result: Result<(), String>) -> (r: Action)
        requires
            old(self).wf(),
        ensures
            (final(self)@, r@) == key_exchanged_effect(
                old(self)@,
                match result {
                    Ok(()) => Ok(()),
                    Err(e) => Err(e@),
                },
            ),
            final(self).wf(),
    {
        match result {
            Ok(()) => {
                self.log(owned("Key exchange completed."));
                self.fetch_remote_keys()
            },
            Err(e) => {
                self.log(text2("ERROR: key exchange failed: ", e.as_str()));
                Action::Nothing
            },
        }
    }

    /// Records the outcome of reading the remote authorized keys.
    pub fn remote_keys_fetched(&mut self, result: Result<Vec<String>, String>)
        requires
            old(self).wf(),
        ensures
            final(self)@ == remote_keys_state(
                old(self)@,
                match result {
                    Ok(keys) => Ok(texts(keys@)),
                    Err(e) => Err(e@),
                },
            ),
            final(self).wf(),
    {
        match result {
            Ok(keys) => {
                self.remote_keys = keys;
                self.clamp_selection();
                let mut m = owned("Fetched ");
                push_decimal(&mut m, self.remote_keys.len() as u64);
                m.append(" remote key(s).");
                self.log(m);
            },
            Err(e) => {
                self.log(text2("ERROR: remote key fetch failed: ", e.as_str()));
            },
        }
    }

    fn console_push_lines(&mut self, text: &str, prefix: &str)
        ensures
            final(self)@ == console_lines(old(self)@, lines(text@), prefix@),
    {
        let ls = split_lines(text);
        let ghost lv = lines(text@);
        let ghost start = self@;
        let mut i: usize = 0;
        assert(lv.take(0) =~= Seq::<Seq<char>>::empty());
        while i < ls.len()
            invariant
                lv == lines(text@),
                ls@.len() == lv.len(),
                forall|k: int| 0 <= k < ls@.len() ==> #[trigger] ls@[k]@ == lv[k],
                i <= ls@.len(),
                self@ == console_lines(start, lv.take(i as int), prefix@),
            decreases ls@.len() - i,
        {
            proof {
                assert(lv.take(i + 1).drop_last() =~= lv.take(i as int));
                assert(lv.take(i + 1).last() == ls@[i as int]@);
            }
            self.console_push(text2(prefix, ls[i].as_str()));
            i += 1;
        }
        assert(lv.take(ls@.len() as int) =~= lv);
    }

    /// Records the outcome of a remote command in the console.
    pub fn command_finished(&mut self, result: Result<CommandResult, String>)
        requires
            old(self).wf(),
        ensures
            final(self)@ == command_state(
                old(self)@,
                match result {
                    Ok(c) => Ok((c.stdout@, c.stderr@, c.exit_status)),
                    Err(e) => Err(e@),
                },
            ),
            final(self).wf(),
    {
        match result {
            Ok(c) => {
                proof {
                    reveal_strlit("");
                    assert(""@ =~= Seq::<char>::empty());
                    lemma_console_lines_wf(old(self)@, lines(c.stdout@), seq![]);
                    lemma_console_lines_wf(
                        console_lines(old(self)@, lines(c.stdout@), seq![]),
                        lines(c.stderr@),
                        "[stderr] "@,
                    );
                }
                self.console_push_lines(c.stdout.as_str(), "");
                self.console_push_lines(c.stderr.as_str(), "[stderr] ");
                let status = crate::text::i32_to_decimal(c.exit_status);
                self.console_push(text3("[exit ", status.as_str(), "]"));
                self.log(owned("Remote command completed."));
            },
            Err(e) => {
                self.console_push(text2("[error] ", e.as_str()));
                self.log(text2("ERROR: remote command failed: ", e.as_str()));
            },
        }
    }
}

} // verus!
