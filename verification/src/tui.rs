//! The terminal interface's logic: tabs, themes and their colours, input
//! forms, list navigation, and the state machine that turns key presses into
//! state changes and requests for outside work.
use vstd::prelude::*;

use crate::models::{AuthMethod, AuthView, TargetProfile, TargetView};
use crate::text::{
    chars_of, find_ws, first_ws, is_ws, lower, owned, parse_u16, parse_u16_str, pop_char,
    push_char, str_eq, to_lowercase_ascii, trim, trim_end, trim_start, trim_str,
};

verus! {

/// The tabs of the interface, in display order.
#[derive(Clone, Copy, Debug, PartialEq, Eq, Structural)]
pub enum Tab {
    Keys,
    Targets,
    Exchange,
    Console,
}

pub open spec fn tab_at(i: nat) -> Tab {
    if i == 0 {
        Tab::Keys
    } else if i == 1 {
        Tab::Targets
    } else if i == 2 {
        Tab::Exchange
    } else {
        Tab::Console
    }
}

impl Tab {
    pub open spec fn spec_index(self) -> nat {
        match self {
            Tab::Keys => 0,
            Tab::Targets => 1,
            Tab::Exchange => 2,
            Tab::Console => 3,
        }
    }

    /// Position of the tab in display order.
    pub fn index(self) -> (r: usize)
        ensures
            r as nat == self.spec_index(),
            r < 4,
    {
        match self {
            Tab::Keys => 0,
            Tab::Targets => 1,
            Tab::Exchange => 2,
            Tab::Console => 3,
        }
    }

    pub open spec fn spec_title(self) -> Seq<char> {
        match self {
            Tab::Keys => "KEYS"@,
            Tab::Targets => "TARGETS"@,
            Tab::Exchange => "EXCHANGE"@,
            Tab::Console => "SSH CONSOLE"@,
        }
    }

    pub fn title(self) -> (r: &'static str)
        ensures
            r@ == self.spec_title(),
    {
        match self {
            Tab::Keys => "KEYS",
            Tab::Targets => "TARGETS",
            Tab::Exchange => "EXCHANGE",
            Tab::Console => "SSH CONSOLE",
        }
    }
}

fn tab_from_index(i: usize) -> (r: Tab)
    requires
        i < 4,
    ensures
        r == tab_at(i as nat),
{
    if i == 0 {
        Tab::Keys
    } else if i == 1 {
        Tab::Targets
    } else if i == 2 {
        Tab::Exchange
    } else {
        Tab::Console
    }
}

/// The tab to the right of `t`, the first after the last.
pub open spec fn tab_after(t: Tab) -> Tab {
    tab_at(((t.spec_index() + 1) % 4) as nat)
}

/// The tab to the left of `t`, the last before the first.
pub open spec fn tab_before(t: Tab) -> Tab {
    tab_at(((t.spec_index() + 3) % 4) as nat)
}

/// The tab to the right, wrapping around.
pub fn next_tab(tab: Tab) -> (r: Tab)
    ensures
        r == tab_after(tab),
{
    tab_from_index((tab.index() + 1) % 4)
}

/// The tab to the left, wrapping around.
pub fn prev_tab(tab: Tab) -> (r: Tab)
    ensures
        r == tab_before(tab),
{
    if tab.index() == 0 {
        tab_from_index(3)
    } else {
        tab_from_index(tab.index() - 1)
    }
}

/// Moving one tab to the right and then one to the left comes back to the
/// same tab, and so does the opposite order.
pub proof fn lemma_tab_moves_undo(t: Tab)
    ensures
        tab_before(tab_after(t)) == t,
        tab_after(tab_before(t)) == t,
{
}

/// Four moves to the right visit every tab once and come back to the start.
pub proof fn lemma_tab_cycle(t: Tab)
    ensures
        tab_after(tab_after(tab_after(tab_after(t)))) == t,
        tab_after(t) != t,
        tab_after(tab_after(t)) != t,
        tab_after(tab_after(tab_after(t))) != t,
{
}

/// The colour themes, in the order in which they are cycled.
#[derive(Clone, Copy, Debug, PartialEq, Eq, Structural)]
pub enum Theme {
    Cyberpunk,
    Synth,
    Matrix,
    Ember,
    Glacier,
}

pub open spec fn theme_at(i: nat) -> Theme {
    if i == 0 {
        Theme::Cyberpunk
    } else if i == 1 {
        Theme::Synth
    } else if i == 2 {
        Theme::Matrix
    } else if i == 3 {
        Theme::Ember
    } else {
        Theme::Glacier
    }
}

/// The theme that follows `t` when cycling, the first after the last.
pub open spec fn theme_after(t: Theme) -> Theme {
    theme_at(((t.spec_index() + 1) % 5) as nat)
}

/// The theme that precedes `t` when cycling, the last before the first.
pub open spec fn theme_before(t: Theme) -> Theme {
    theme_at(((t.spec_index() + 4) % 5) as nat)
}

fn theme_from_index(i: usize) -> (r: Theme)
    requires
        i < 5,
    ensures
        r == theme_at(i as nat),
{
    if i == 0 {
        Theme::Cyberpunk
    } else if i == 1 {
        Theme::Synth
    } else if i == 2 {
        Theme::Matrix
    } else if i == 3 {
        Theme::Ember
    } else {
        Theme::Glacier
    }
}

/// A colour as red, green and blue intensities.
pub type Rgb = (u8, u8, u8);

/// The colours of a theme.
#[derive(Clone, Copy, Debug, PartialEq, Eq)]
pub struct ThemePalette {
    pub bg: Rgb,
    pub panel_bg: Rgb,
    pub accent_primary: Rgb,
    pub accent_secondary: Rgb,
    pub accent_success: Rgb,
    pub accent_border: Rgb,
    pub text_muted: Rgb,
    pub selection_bg: Rgb,
    pub input_active_bg: Rgb,
}

pub open spec fn palette_of(t: Theme) -> ThemePalette {
    match t {
        Theme::Cyberpunk => ThemePalette {
            bg: (8, 8, 14),
            panel_bg: (15, 18, 26),
            accent_primary: (255, 33, 156),
            accent_secondary: (0, 245, 255),
            accent_success: (132, 255, 0),
            accent_border: (167, 77, 255),
            text_muted: (165, 178, 198),
            selection_bg: (27, 14, 39),
            input_active_bg: (31, 19, 45),
        },
        Theme::Synth => ThemePalette {
            bg: (14, 8, 24),
            panel_bg: (24, 14, 36),
            accent_primary: (255, 109, 245),
            accent_secondary: (109, 225, 255),
            accent_success: (255, 196, 81),
            accent_border: (173, 120, 255),
            text_muted: (206, 197, 235),
            selection_bg: (40, 24, 59),
            input_active_bg: (52, 31, 74),
        },
        Theme::Matrix => ThemePalette {
            bg: (3, 10, 4),
            panel_bg: (9, 19, 10),
            accent_primary: (97, 255, 132),
            accent_secondary: (46, 202, 92),
            accent_success: (182, 255, 102),
            accent_border: (36, 148, 70),
            text_muted: (140, 191, 151),
            selection_bg: (18, 39, 22),
            input_active_bg: (23, 51, 29),
        },
        Theme::Ember => ThemePalette {
            bg: (20, 10, 8),
            panel_bg: (30, 16, 12),
            accent_primary: (255, 120, 78),
            accent_secondary: (255, 181, 96),
            accent_success: (255, 229, 122),
            accent_border: (214, 94, 58),
            text_muted: (227, 188, 168),
            selection_bg: (52, 25, 18),
            input_active_bg: (61, 29, 21),
        },
        Theme::Glacier => ThemePalette {
            bg: (7, 13, 22),
            panel_bg: (16, 26, 39),
            accent_primary: (141, 214, 255),
            accent_secondary: (104, 184, 255),
            accent_success: (131, 243, 211),
            accent_border: (88, 139, 214),
            text_muted: (187, 210, 232),
            selection_bg: (28, 43, 64),
            input_active_bg: (37, 56, 81),
        },
    }
}

impl Theme {
    pub open spec fn spec_index(self) -> nat {
        match self {
            Theme::Cyberpunk => 0,
            Theme::Synth => 1,
            Theme::Matrix => 2,
            Theme::Ember => 3,
            Theme::Glacier => 4,
        }
    }

    fn index(self) -> (r: usize)
        ensures
            r as nat == self.spec_index(),
            r < 5,
    {
        match self {
            Theme::Cyberpunk => 0,
            Theme::Synth => 1,
            Theme::Matrix => 2,
            Theme::Ember => 3,
            Theme::Glacier => 4,
        }
    }

    pub open spec fn spec_title(self) -> Seq<char> {
        match self {
            Theme::Cyberpunk => "Cyberpunk"@,
            Theme::Synth => "Synth"@,
            Theme::Matrix => "Matrix"@,
            Theme::Ember => "Ember"@,
            Theme::Glacier => "Glacier"@,
        }
    }

    /// The name shown for the theme.
    pub fn title(self) -> (r: &'static str)
        ensures
            r@ == self.spec_title(),
    {
        match self {
            Theme::Cyberpunk => "Cyberpunk",
            Theme::Synth => "Synth",
            Theme::Matrix => "Matrix",
            Theme::Ember => "Ember",
            Theme::Glacier => "Glacier",
        }
    }

    pub open spec fn spec_config_value(self) -> Seq<char> {
        match self {
            Theme::Cyberpunk => "cyberpunk"@,
            Theme::Synth => "synth"@,
            Theme::Matrix => "matrix"@,
            Theme::Ember => "ember"@,
            Theme::Glacier => "glacier"@,
        }
    }

    /// The name under which the theme is saved in the configuration.
    pub fn config_value(self) -> (r: &'static str)
        ensures
            r@ == self.spec_config_value(),
    {
        match self {
            Theme::Cyberpunk => "cyberpunk",
            Theme::Synth => "synth",
            Theme::Matrix => "matrix",
            Theme::Ember => "ember",
            Theme::Glacier => "glacier",
        }
    }

    /// The theme a saved name selects: the name is trimmed and compared
    /// without case; an unknown or missing name selects `Cyberpunk`.
    pub open spec fn spec_from_config_value(value: Option<Seq<char>>) -> Theme {
        let v = lower(
            trim(
                match value {
                    Some(s) => s,
                    None => seq![],
                },
            ),
        );
        if v == "synth"@ {
            Theme::Synth
        } else if v == "matrix"@ {
            Theme::Matrix
        } else if v == "ember"@ {
            Theme::Ember
        } else if v == "glacier"@ {
            Theme::Glacier
        } else {
            Theme::Cyberpunk
        }
    }

    /// Reads a saved theme name. The names that select a theme other than
    /// the default are ASCII words without `k`, the one ASCII letter that a
    /// non-ASCII character lower-cases to alone, so ASCII case folding
    /// decides as full Unicode lower-casing does.
    pub fn from_config_value(value: Option<&str>) -> (r: Theme)
        ensures
            r == Theme::spec_from_config_value(
                match value {
                    Some(s) => Some(s@),
                    None => None,
                },
            ),
    {
        let raw = match value {
            Some(s) => s,
            None => "",
        };
        proof {
            reveal_strlit("");
        }
        let t = trim_str(raw);
        let v = to_lowercase_ascii(t.as_str());
        assert(value is None ==> raw@ =~= Seq::<char>::empty());
        if str_eq(v.as_str(), "synth") {
            Theme::Synth
        } else if str_eq(v.as_str(), "matrix") {
            Theme::Matrix
        } else if str_eq(v.as_str(), "ember") {
            Theme::Ember
        } else if str_eq(v.as_str(), "glacier") {
            Theme::Glacier
        } else {
            Theme::Cyberpunk
        }
    }

    /// The following theme, wrapping around.
    pub fn next(self) -> (r: Theme)
        ensures
            r == theme_after(self),
    {
        theme_from_index((self.index() + 1) % 5)
    }

    /// The preceding theme, wrapping around.
    pub fn prev(self) -> (r: Theme)
        ensures
            r == theme_before(self),
    {
        let i = self.index();
        if i == 0 {
            theme_from_index(4)
        } else {
            theme_from_index(i - 1)
        }
    }

    /// The colours of the theme.
    pub fn palette(self) -> (r: ThemePalette)
        ensures
            r == palette_of(self),
    {
        match self {
            Theme::Cyberpunk => ThemePalette {
                bg: (8, 8, 14),
                panel_bg: (15, 18, 26),
                accent_primary: (255, 33, 156),
                accent_secondary: (0, 245, 255),
                accent_success: (132, 255, 0),
                accent_border: (167, 77, 255),
                text_muted: (165, 178, 198),
                selection_bg: (27, 14, 39),
                input_active_bg: (31, 19, 45),
            },
            Theme::Synth => ThemePalette {
                bg: (14, 8, 24),
                panel_bg: (24, 14, 36),
                accent_primary: (255, 109, 245),
                accent_secondary: (109, 225, 255),
                accent_success: (255, 196, 81),
                accent_border: (173, 120, 255),
                text_muted: (206, 197, 235),
                selection_bg: (40, 24, 59),
                input_active_bg: (52, 31, 74),
            },
            Theme::Matrix => ThemePalette {
                bg: (3, 10, 4),
                panel_bg: (9, 19, 10),
                accent_primary: (97, 255, 132),
                accent_secondary: (46, 202, 92),
                accent_success: (182, 255, 102),
                accent_border: (36, 148, 70),
                text_muted: (140, 191, 151),
                selection_bg: (18, 39, 22),
                input_active_bg: (23, 51, 29),
            },
            Theme::Ember => ThemePalette {
                bg: (20, 10, 8),
                panel_bg: (30, 16, 12),
                accent_primary: (255, 120, 78),
                accent_secondary: (255, 181, 96),
                accent_success: (255, 229, 122),
                accent_border: (214, 94, 58),
                text_muted: (227, 188, 168),
                selection_bg: (52, 25, 18),
                input_active_bg: (61, 29, 21),
            },
            Theme::Glacier => ThemePalette {
                bg: (7, 13, 22),
                panel_bg: (16, 26, 39),
                accent_primary: (141, 214, 255),
                accent_secondary: (104, 184, 255),
                accent_success: (131, 243, 211),
                accent_border: (88, 139, 214),
                text_muted: (187, 210, 232),
                selection_bg: (28, 43, 64),
                input_active_bg: (37, 56, 81),
            },
        }
    }
}

/// Cycling the theme forward and then back selects the same theme, and so
/// does the opposite order.
pub proof fn lemma_theme_moves_undo(t: Theme)
    ensures
        theme_before(theme_after(t)) == t,
        theme_after(theme_before(t)) == t,
{
}

/// Five presses of the theme key visit every theme once and come back to the start.
pub proof fn lemma_theme_cycle(t: Theme)
    ensures
        theme_after(theme_after(theme_after(theme_after(theme_after(t))))) == t,
        theme_after(t) != t,
        theme_after(theme_after(t)) != t,
        theme_after(theme_after(theme_after(t))) != t,
        theme_after(theme_after(theme_after(theme_after(t)))) != t,
{
}

/// A theme saved under its configuration name is read back as the same
/// theme, and so is its display name.
pub proof fn lemma_theme_saved_name_read_back(t: Theme)
    ensures
        Theme::spec_from_config_value(Some(t.spec_config_value())) == t,
        Theme::spec_from_config_value(Some(t.spec_title())) == t,
{
    reveal_strlit("cyberpunk");
    reveal_strlit("synth");
    reveal_strlit("matrix");
    reveal_strlit("ember");
    reveal_strlit("glacier");
    reveal_strlit("Cyberpunk");
    reveal_strlit("Synth");
    reveal_strlit("Matrix");
    reveal_strlit("Ember");
    reveal_strlit("Glacier");
    let v = t.spec_config_value();
    let d = t.spec_title();
    assert(trim_start(v) == v);
    assert(trim_end(v) == v);
    assert(trim_start(d) == d);
    assert(trim_end(d) == d);
    assert(lower(v) =~= v);
    assert(lower(d) =~= v);
}

/// Any text that differs from a theme's saved name only by the case of its
/// letters and by surrounding whitespace selects that theme.
pub proof fn lemma_theme_name_case_blind(t: Theme, s: Seq<char>)
    requires
        lower(trim(s)) == t.spec_config_value(),
    ensures
        Theme::spec_from_config_value(Some(s)) == t,
{
    reveal_strlit("cyberpunk");
    reveal_strlit("synth");
    reveal_strlit("matrix");
    reveal_strlit("ember");
    reveal_strlit("glacier");
    let v = t.spec_config_value();
    assert(v == "synth"@ <==> t == Theme::Synth) by {
        if t != Theme::Synth {
            assert(v.len() != 5 || v[0] != 's');
        }
    }
    assert(v == "matrix"@ <==> t == Theme::Matrix) by {
        if t != Theme::Matrix {
            assert(v.len() != 6 || v[0] != 'm');
        }
    }
    assert(v == "ember"@ <==> t == Theme::Ember) by {
        if t != Theme::Ember {
            assert(v.len() != 5 || v[0] != 'e');
        }
    }
    assert(v == "glacier"@ <==> t == Theme::Glacier) by {
        if t != Theme::Glacier {
            assert(v.len() != 7 || v[0] != 'g');
        }
    }
}

/// A list index after moving by `delta`: up from the first item goes to the
/// last, down from the last goes to the first; an empty list resets to 0.
pub open spec fn moved_index(index: nat, len: nat, delta: int) -> nat {
    if len == 0 {
        0
    } else if delta < 0 {
        if index == 0 {
            (len - 1) as nat
        } else {
            (index - 1) as nat
        }
    } else if delta > 0 {
        (index + 1) % len
    } else {
        index
    }
}

/// Moves a list index, wrapping at both ends.
pub fn move_index(index: &mut usize, len: usize, delta: isize)
    requires
        len > 0 && delta > 0 ==> *old(index) < usize::MAX,
    ensures
        *final(index) as nat == moved_index(*old(index) as nat, len as nat, delta as int),
{
    if len == 0 {
        *index = 0;
        return;
    }
    if delta < 0 {
        if *index == 0 {
            *index = len - 1;
        } else {
            *index -= 1;
        }
    } else if delta > 0 {
        *index = (*index + 1) % len;
    }
}

/// Moving a list selection stays within the list, and a move down undone
/// by a move up (or the other way round) comes back to the same item.
pub proof fn lemma_moved_index_in_list(index: nat, len: nat, delta: int)
    requires
        index < len,
    ensures
        moved_index(index, len, delta) < len,
        moved_index(moved_index(index, len, 1), len, -1) == index,
        moved_index(moved_index(index, len, -1), len, 1) == index,
{
    if index + 1 == len {
        assert((index + 1) % len == 0) by (nonlinear_arith)
            requires
                index + 1 == len,
        ;
    } else {
        assert((index + 1) % len == index + 1) by (nonlinear_arith)
            requires
                index + 1 < len,
        ;
    }
    if delta > 0 {
        assert((index + 1) % len < len) by (nonlinear_arith)
            requires
                index < len,
        ;
    }
    if index == 0 {
        assert(((len - 1) as nat + 1) % len == 0) by (nonlinear_arith)
            requires
                0 < len,
        ;
    } else {
        assert(((index - 1) as nat + 1) % len == index) by (nonlinear_arith)
            requires
                0 < index < len,
        ;
    }
}

/// The field after `field` in a form of `n` fields, from the last back to the first.
pub open spec fn field_after(field: nat, n: nat) -> nat {
    (field + 1) % n
}

/// The field before `field` in a form of `n` fields, from the first to the last.
pub open spec fn field_before(field: nat, n: nat) -> nat {
    if field == 0 {
        (n - 1) as nat
    } else {
        (field - 1) as nat
    }
}

/// In a form, moving to the next field and back to the previous one returns
/// to the same field, and so does the opposite order; both stay in the form.
pub proof fn lemma_form_field_moves_undo(field: nat, n: nat)
    requires
        field < n,
    ensures
        field_after(field, n) < n,
        field_before(field, n) < n,
        field_before(field_after(field, n), n) == field,
        field_after(field_before(field, n), n) == field,
{
    lemma_moved_index_in_list(field, n, 1);
}

/// `*` once per character of `value`.
pub open spec fn masked(value: Seq<char>) -> Seq<char> {
    Seq::new(value.len(), |i: int| '*')
}

/// Hides a secret behind one `*` per character.
pub fn mask_secret(value: &str) -> (r: String)
    ensures
        r@ == masked(value@),
{
    let v = chars_of(value);
    let mut r = String::new();
    let mut i: usize = 0;
    while i < v.len()
        invariant
            v@ == value@,
            i <= v@.len(),
            r@ == masked(value@).take(i as int),
        decreases v@.len() - i,
    {
        push_char(&mut r, '*');
        i += 1;
        assert(r@ =~= masked(value@).take(i as int));
    }
    assert(masked(value@).take(v@.len() as int) =~= masked(value@));
    r
}

/// `s` contains a whitespace character.
pub open spec fn has_ws(s: Seq<char>) -> bool {
    exists|i: int| 0 <= i < s.len() && is_ws(#[trigger] s[i])
}

proof fn lemma_first_ws(s: Seq<char>)
    ensures
        0 <= first_ws(s) <= s.len(),
        first_ws(s) < s.len() ==> is_ws(s[first_ws(s)]),
        forall|i: int| 0 <= i < first_ws(s) ==> !is_ws(#[trigger] s[i]),
    decreases s.len(),
{
    if s.len() > 0 && !is_ws(s[0]) {
        lemma_first_ws(s.drop_first());
        assert forall|i: int| 0 <= i < first_ws(s) implies !is_ws(#[trigger] s[i]) by {
            if i > 0 {
                assert(s[i] == s.drop_first()[i - 1]);
            }
        }
    }
}

/// Whether `s` contains a whitespace character.
pub fn has_whitespace(s: &str) -> (r: bool)
    ensures
        r == has_ws(s@),
{
    let v = chars_of(s);
    let k = find_ws(&v);
    proof {
        lemma_first_ws(s@);
    }
    k < v.len()
}

/// Which authentication the target form asks for.
#[derive(Clone, Copy, Debug, PartialEq, Eq, Structural)]
pub enum AuthFormKind {
    Password,
    KeyFile,
}

/// Why the target form could not be turned into a target.
#[derive(Clone, Copy, Debug, PartialEq, Eq, Structural)]
pub enum FormError {
    EmptyName,
    EmptyHost,
    HostHasWhitespace,
    EmptyUser,
    UserHasWhitespace,
    InvalidPort,
    EmptyPassword,
    EmptyPrivateKey,
}

impl FormError {
    pub open spec fn spec_message(self) -> Seq<char> {
        match self {
            FormError::EmptyName => "target name cannot be empty"@,
            FormError::EmptyHost => "host cannot be empty"@,
            FormError::HostHasWhitespace => "host cannot contain whitespace"@,
            FormError::EmptyUser => "user cannot be empty"@,
            FormError::UserHasWhitespace => "user cannot contain whitespace"@,
            FormError::InvalidPort => "port must be a valid number"@,
            FormError::EmptyPassword => "password cannot be empty"@,
            FormError::EmptyPrivateKey => "private key path cannot be empty"@,
        }
    }

    /// The explanation shown to the user.
    pub fn message(&self) -> (r: &'static str)
        ensures
            r@ == self.spec_message(),
    {
        match self {
            FormError::EmptyName => "target name cannot be empty",
            FormError::EmptyHost => "host cannot be empty",
            FormError::HostHasWhitespace => "host cannot contain whitespace",
            FormError::EmptyUser => "user cannot be empty",
            FormError::UserHasWhitespace => "user cannot contain whitespace",
            FormError::InvalidPort => "port must be a valid number",
            FormError::EmptyPassword => "password cannot be empty",
            FormError::EmptyPrivateKey => "private key path cannot be empty",
        }
    }
}

/// The form that adds a target.
#[derive(Debug)]
pub struct TargetForm {
    pub field: usize,
    pub name: String,
    pub host: String,
    pub port: String,
    pub user: String,
    pub auth_kind: AuthFormKind,
    pub password: String,
    pub private_key: String,
    pub passphrase: String,
}

pub struct TargetFormView {
    pub field: nat,
    pub name: Seq<char>,
    pub host: Seq<char>,
    pub port: Seq<char>,
    pub user: Seq<char>,
    pub auth_kind: AuthFormKind,
    pub password: Seq<char>,
    pub private_key: Seq<char>,
    pub passphrase: Seq<char>,
}

impl View for TargetForm {
    type V = TargetFormView;

    open spec fn view(&self) -> TargetFormView {
        TargetFormView {
            field: self.field as nat,
            name: self.name@,
            host: self.host@,
            port: self.port@,
            user: self.user@,
            auth_kind: self.auth_kind,
            password: self.password@,
            private_key: self.private_key@,
            passphrase: self.passphrase@,
        }
    }
}

/// Number of fields of the target form: the password form has six, the key
/// file form seven.
pub open spec fn target_fields_len(kind: AuthFormKind) -> nat {
    match kind {
        AuthFormKind::Password => 6,
        AuthFormKind::KeyFile => 7,
    }
}

/// The text of one line edit: a character typed, or the last one erased.
pub enum Edit {
    Type(char),
    Erase,
}

pub open spec fn edited(value: Seq<char>, e: Edit) -> Seq<char> {
    match e {
        Edit::Type(c) => value.push(c),
        Edit::Erase => if value.len() > 0 {
            value.drop_last()
        } else {
            value
        },
    }
}

fn apply_edit(value: &mut String, e: &Edit)
    ensures
        final(value)@ == edited(old(value)@, *e),
{
    match e {
        Edit::Type(c) => push_char(value, *c),
        Edit::Erase => {
            let _ = pop_char(value);
        },
    }
}

/// The target form after an edit of its active field. Field 4 is the
/// authentication selector, which holds no text.
pub open spec fn target_form_edited(f: TargetFormView, e: Edit) -> TargetFormView {
    if f.field == 0 {
        TargetFormView { name: edited(f.name, e), ..f }
    } else if f.field == 1 {
        TargetFormView { host: edited(f.host, e), ..f }
    } else if f.field == 2 {
        TargetFormView { port: edited(f.port, e), ..f }
    } else if f.field == 3 {
        TargetFormView { user: edited(f.user, e), ..f }
    } else if f.field == 5 && f.auth_kind == AuthFormKind::Password {
        TargetFormView { password: edited(f.password, e), ..f }
    } else if f.field == 5 && f.auth_kind == AuthFormKind::KeyFile {
        TargetFormView { private_key: edited(f.private_key, e), ..f }
    } else if f.field == 6 && f.auth_kind == AuthFormKind::KeyFile {
        TargetFormView { passphrase: edited(f.passphrase, e), ..f }
    } else {
        f
    }
}

/// The target that a filled-in form describes: name, host and user are
/// trimmed and must not be empty, host and user hold no whitespace, the port
/// (trimmed) is a number; a password must not be empty, a key path must not
/// be blank (it is trimmed), and a blank passphrase counts as none.
pub open spec fn form_profile(f: TargetFormView) -> Result<TargetView, FormError> {
    let name = trim(f.name);
    let host = trim(f.host);
    let user = trim(f.user);
    if name.len() == 0 {
        Err(FormError::EmptyName)
    } else if host.len() == 0 {
        Err(FormError::EmptyHost)
    } else if has_ws(host) {
        Err(FormError::HostHasWhitespace)
    } else if user.len() == 0 {
        Err(FormError::EmptyUser)
    } else if has_ws(user) {
        Err(FormError::UserHasWhitespace)
    } else {
        match parse_u16(trim(f.port)) {
            None => Err(FormError::InvalidPort),
            Some(port) => match f.auth_kind {
                AuthFormKind::Password => if f.password.len() == 0 {
                    Err(FormError::EmptyPassword)
                } else {
                    Ok(
                        TargetView {
                            name,
                            host,
                            port,
                            user,
                            auth: AuthView::Password { password: f.password },
                        },
                    )
                },
                AuthFormKind::KeyFile => if trim(f.private_key).len() == 0 {
                    Err(FormError::EmptyPrivateKey)
                } else {
                    Ok(
                        TargetView {
                            name,
                            host,
                            port,
                            user,
                            auth: AuthView::KeyFile {
                                private_key: trim(f.private_key),
                                passphrase: if trim(f.passphrase).len() == 0 {
                                    None
                                } else {
                                    Some(f.passphrase)
                                },
                            },
                        },
                    )
                },
            },
        }
    }
}

pub open spec fn form_result_view(r: Result<TargetProfile, FormError>) -> Result<TargetView, FormError> {
    match r {
        Ok(t) => Ok(t@),
        Err(e) => Err(e),
    }
}

/// The labelled rows of a form: label, value (secrets masked), and whether the
/// value is secret.
pub open spec fn rows_view(rows: Seq<(String, String, bool)>) -> Seq<(Seq<char>, Seq<char>, bool)> {
    rows.map_values(|r: (String, String, bool)| (r.0@, r.1@, r.2))
}

pub open spec fn target_form_rows(f: TargetFormView) -> Seq<(Seq<char>, Seq<char>, bool)> {
    seq![
        ("Name"@, f.name, false),
        ("Host (ip/domain)"@, f.host, false),
        ("Port"@, f.port, false),
        ("User"@, f.user, false),
        ("Auth"@, match f.auth_kind {
            AuthFormKind::Password => "password"@,
            AuthFormKind::KeyFile => "key_file"@,
        }, false),
    ] + match f.auth_kind {
        AuthFormKind::Password => seq![("Password"@, masked(f.password), true)],
        AuthFormKind::KeyFile => seq![
            ("Private Key Path"@, f.private_key, false),
            ("Key Passphrase (optional)"@, masked(f.passphrase), true),
        ],
    }
}

impl Default for TargetForm {
    fn default() -> (r: Self)
        ensures
            r@ == (TargetFormView {
                field: 0,
                name: seq![],
                host: seq![],
                port: "22"@,
                user: seq![],
                auth_kind: AuthFormKind::Password,
                password: seq![],
                private_key: seq![],
                passphrase: seq![],
            }),
    {
        TargetForm {
            field: 0,
            name: String::new(),
            host: String::new(),
            port: owned("22"),
            user: String::new(),
            auth_kind: AuthFormKind::Password,
            password: String::new(),
            private_key: String::new(),
            passphrase: String::new(),
        }
    }
}

impl TargetForm {
    /// The active field is one of the form's fields.
    pub open spec fn wf(&self) -> bool {
        self.field < target_fields_len(self.auth_kind)
    }

    pub fn fields_len(&self) -> (r: usize)
        ensures
            r as nat == target_fields_len(self.auth_kind),
    {
        match self.auth_kind {
            AuthFormKind::Password => 6,
            AuthFormKind::KeyFile => 7,
        }
    }

    /// Moves to the next field, from the last back to the first.
    pub fn next_field(&mut self)
        requires
            old(self).wf(),
        ensures
            final(self)@ == (TargetFormView {
                field: field_after(old(self).field as nat, target_fields_len(old(self).auth_kind)),
                ..old(self)@
            }),
            final(self).wf(),
    {
        self.field = (self.field + 1) % self.fields_len();
    }

    /// Moves to the previous field, from the first to the last.
    pub fn prev_field(&mut self)
        requires
            old(self).wf(),
        ensures
            final(self)@ == (TargetFormView {
                field: field_before(old(self).field as nat, target_fields_len(old(self).auth_kind)),
                ..old(self)@
            }),
            final(self).wf(),
    {
        if self.field == 0 {
            self.field = self.fields_len() - 1;
        } else {
            self.field -= 1;
        }
    }

    /// Switches the authentication kind, keeping the active field within the form.
    pub fn set_auth_kind(&mut self, kind: AuthFormKind)
        ensures
            final(self)@ == (TargetFormView {
                auth_kind: kind,
                field: if old(self).field >= target_fields_len(kind) {
                    (target_fields_len(kind) - 1) as nat
                } else {
                    old(self).field as nat
                },
                ..old(self)@
            }),
            final(self).wf(),
    {
        self.auth_kind = kind;
        if self.field >= self.fields_len() {
            self.field = self.fields_len() - 1;
        }
    }

    /// Applies an edit to the active field, if it holds text.
    pub fn edit_active_field(&mut self, e: Edit)
        ensures
            final(self)@ == target_form_edited(old(self)@, e),
    {
        match (self.auth_kind, self.field) {
            (_, 0) => apply_edit(&mut self.name, &e),
            (_, 1) => apply_edit(&mut self.host, &e),
            (_, 2) => apply_edit(&mut self.port, &e),
            (_, 3) => apply_edit(&mut self.user, &e),
            (AuthFormKind::Password, 5) => apply_edit(&mut self.password, &e),
            (AuthFormKind::KeyFile, 5) => apply_edit(&mut self.private_key, &e),
            (AuthFormKind::KeyFile, 6) => apply_edit(&mut self.passphrase, &e),
            _ => {},
        }
    }

    /// The rows the form shows.
    pub fn lines(&self) -> (r: Vec<(String, String, bool)>)
        ensures
            rows_view(r@) == target_form_rows(self@),
    {
        let mut rows: Vec<(String, String, bool)> = Vec::new();
        rows.push((owned("Name"), self.name.clone(), false));
        rows.push((owned("Host (ip/domain)"), self.host.clone(), false));
        rows.push((owned("Port"), self.port.clone(), false));
        rows.push((owned("User"), self.user.clone(), false));
        let kind = match self.auth_kind {
            AuthFormKind::Password => owned("password"),
            AuthFormKind::KeyFile => owned("key_file"),
        };
        rows.push((owned("Auth"), kind, false));
        match self.auth_kind {
            AuthFormKind::Password => {
                rows.push((owned("Password"), mask_secret(self.password.as_str()), true));
            },
            AuthFormKind::KeyFile => {
                rows.push((owned("Private Key Path"), self.private_key.clone(), false));
                rows.push(
                    (owned("Key Passphrase (optional)"), mask_secret(self.passphrase.as_str()), true),
                );
            },
        }
        assert(rows_view(rows@) =~= target_form_rows(self@));
        rows
    }

    /// The target the form describes.
    pub fn to_profile(&self) -> (r: Result<TargetProfile, FormError>)
        ensures
            form_result_view(r) == form_profile(self@),
    {
        let name = trim_str(self.name.as_str());
        let host = trim_str(self.host.as_str());
        let user = trim_str(self.user.as_str());
        if name.as_str().is_empty() {
            return Err(FormError::EmptyName);
        }
        if host.as_str().is_empty() {
            return Err(FormError::EmptyHost);
        }
        if has_whitespace(host.as_str()) {
            return Err(FormError::HostHasWhitespace);
        }
        if user.as_str().is_empty() {
            return Err(FormError::EmptyUser);
        }
        if has_whitespace(user.as_str()) {
            return Err(FormError::UserHasWhitespace);
        }
        let port_text = trim_str(self.port.as_str());
        let port = match parse_u16_str(port_text.as_str()) {
            Some(p) => p,
            None => {
                return Err(FormError::InvalidPort);
            },
        };
        let auth = match self.auth_kind {
            AuthFormKind::Password => {
                if self.password.as_str().is_empty() {
                    return Err(FormError::EmptyPassword);
                }
                AuthMethod::Password { password: self.password.clone() }
            },
            AuthFormKind::KeyFile => {
                let private_key = trim_str(self.private_key.as_str());
                if private_key.as_str().is_empty() {
                    return Err(FormError::EmptyPrivateKey);
                }
                let blank = trim_str(self.passphrase.as_str());
                AuthMethod::KeyFile {
                    private_key,
                    passphrase: if blank.as_str().is_empty() {
                        None
                    } else {
                        Some(self.passphrase.clone())
                    },
                }
            },
        };
        Ok(TargetProfile { name, host, port, user, auth })
    }
}

/// The form that generates a key.
#[derive(Debug)]
pub struct GenerateKeyForm {
    pub field: usize,
    pub name: String,
    pub comment: String,
    pub passphrase: String,
}

pub struct GenerateFormView {
    pub field: nat,
    pub name: Seq<char>,
    pub comment: Seq<char>,
    pub passphrase: Seq<char>,
}

impl View for GenerateKeyForm {
    type V = GenerateFormView;

    open spec fn view(&self) -> GenerateFormView {
        GenerateFormView {
            field: self.field as nat,
            name: self.name@,
            comment: self.comment@,
            passphrase: self.passphrase@,
        }
    }
}

pub open spec fn generate_form_edited(f: GenerateFormView, e: Edit) -> GenerateFormView {
    if f.field == 0 {
        GenerateFormView { name: edited(f.name, e), ..f }
    } else if f.field == 1 {
        GenerateFormView { comment: edited(f.comment, e), ..f }
    } else {
        GenerateFormView { passphrase: edited(f.passphrase, e), ..f }
    }
}

pub open spec fn generate_form_rows(f: GenerateFormView) -> Seq<(Seq<char>, Seq<char>, bool)> {
    seq![
        ("Key Name"@, f.name, false),
        ("Comment"@, f.comment, false),
        ("Passphrase (optional)"@, masked(f.passphrase), true),
    ]
}

/// The next field of a three-field form, from the last back to the first.
pub open spec fn next_of_three(field: nat) -> nat {
    field_after(field, 3)
}

/// The previous field of a three-field form, from the first to the last.
pub open spec fn prev_of_three(field: nat) -> nat {
    field_before(field, 3)
}

impl Default for GenerateKeyForm {
    fn default() -> (r: Self)
        ensures
            r@ == (GenerateFormView { field: 0, name: seq![], comment: seq![], passphrase: seq![] }),
    {
        GenerateKeyForm { field: 0, name: String::new(), comment: String::new(), passphrase: String::new() }
    }
}

impl GenerateKeyForm {
    pub open spec fn wf(&self) -> bool {
        self.field < 3
    }

    pub fn fields_len(&self) -> (r: usize)
        ensures
            r == 3,
    {
        3
    }

    pub fn next_field(&mut self)
        requires
            old(self).wf(),
        ensures
            final(self)@ == (GenerateFormView { field: next_of_three(old(self).field as nat), ..old(self)@ }),
            final(self).wf(),
    {
        self.field = (self.field + 1) % self.fields_len();
    }

    pub fn prev_field(&mut self)
        requires
            old(self).wf(),
        ensures
            final(self)@ == (GenerateFormView { field: prev_of_three(old(self).field as nat), ..old(self)@ }),
            final(self).wf(),
    {
        if self.field == 0 {
            self.field = self.fields_len() - 1;
        } else {
            self.field -= 1;
        }
    }

    /// Applies an edit to the active field: name, comment, else passphrase.
    pub fn edit_active_field(&mut self, e: Edit)
        ensures
            final(self)@ == generate_form_edited(old(self)@, e),
    {
        match self.field {
            0 => apply_edit(&mut self.name, &e),
            1 => apply_edit(&mut self.comment, &e),
            _ => apply_edit(&mut self.passphrase, &e),
        }
    }

    pub fn lines(&self) -> (r: Vec<(String, String, bool)>)
        ensures
            rows_view(r@) == generate_form_rows(self@),
    {
        let mut rows: Vec<(String, String, bool)> = Vec::new();
        rows.push((owned("Key Name"), self.name.clone(), false));
        rows.push((owned("Comment"), self.comment.clone(), false));
        rows.push((owned("Passphrase (optional)"), mask_secret(self.passphrase.as_str()), true));
        assert(rows_view(rows@) =~= generate_form_rows(self@));
        rows
    }
}

/// The form that imports an existing private key.
#[derive(Debug)]
pub struct ImportKeyForm {
    pub field: usize,
    pub name: String,
    pub private_key: String,
    pub passphrase: String,
}

pub struct ImportFormView {
    pub field: nat,
    pub name: Seq<char>,
    pub private_key: Seq<char>,
    pub passphrase: Seq<char>,
}

impl View for ImportKeyForm {
    type V = ImportFormView;

    open spec fn view(&self) -> ImportFormView {
        ImportFormView {
            field: self.field as nat,
            name: self.name@,
            private_key: self.private_key@,
            passphrase: self.passphrase@,
        }
    }
}

pub open spec fn import_form_edited(f: ImportFormView, e: Edit) -> ImportFormView {
    if f.field == 0 {
        ImportFormView { name: edited(f.name, e), ..f }
    } else if f.field == 1 {
        ImportFormView { private_key: edited(f.private_key, e), ..f }
    } else {
        ImportFormView { passphrase: edited(f.passphrase, e), ..f }
    }
}

pub open spec fn import_form_rows(f: ImportFormView) -> Seq<(Seq<char>, Seq<char>, bool)> {
    seq![
        ("Display Name (optional)"@, f.name, false),
        ("Private Key Path"@, f.private_key, false),
        ("Passphrase (optional)"@, masked(f.passphrase), true),
    ]
}

impl Default for ImportKeyForm {
    fn default() -> (r: Self)
        ensures
            r@ == (ImportFormView { field: 0, name: seq![], private_key: seq![], passphrase: seq![] }),
    {
        ImportKeyForm { field: 0, name: String::new(), private_key: String::new(), passphrase: String::new() }
    }
}

impl ImportKeyForm {
    pub open spec fn wf(&self) -> bool {
        self.field < 3
    }

    pub fn fields_len(&self) -> (r: usize)
        ensures
            r == 3,
    {
        3
    }

    pub fn next_field(&mut self)
        requires
            old(self).wf(),
        ensures
            final(self)@ == (ImportFormView { field: next_of_three(old(self).field as nat), ..old(self)@ }),
            final(self).wf(),
    {
        self.field = (self.field + 1) % self.fields_len();
    }

    pub fn prev_field(&mut self)
        requires
            old(self).wf(),
        ensures
            final(self)@ == (ImportFormView { field: prev_of_three(old(self).field as nat), ..old(self)@ }),
            final(self).wf(),
    {
        if self.field == 0 {
            self.field = self.fields_len() - 1;
        } else {
            self.field -= 1;
        }
    }

    /// Applies an edit to the active field: name, key path, else passphrase.
    pub fn edit_active_field(&mut self, e: Edit)
        ensures
            final(self)@ == import_form_edited(old(self)@, e),
    {
        match self.field {
            0 => apply_edit(&mut self.name, &e),
            1 => apply_edit(&mut self.private_key, &e),
            _ => apply_edit(&mut self.passphrase, &e),
        }
    }

    pub fn lines(&self) -> (r: Vec<(String, String, bool)>)
        ensures
            rows_view(r@) == import_form_rows(self@),
    {
        let mut rows: Vec<(String, String, bool)> = Vec::new();
        rows.push((owned("Display Name (optional)"), self.name.clone(), false));
        rows.push((owned("Private Key Path"), self.private_key.clone(), false));
        rows.push((owned("Passphrase (optional)"), mask_secret(self.passphrase.as_str()), true));
        assert(rows_view(rows@) =~= import_form_rows(self@));
        rows
    }
}

} // verus!
