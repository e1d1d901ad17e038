//! Parsing of OpenSSH client configuration text and its import as targets.
use vstd::prelude::*;

use crate::models::{opt_view, AuthMethod, AuthView, TargetProfile, TargetView, clone_opt_string};
use crate::text::{
    chars_of, contains_char, eq_ignore_ascii_case, eq_ignore_case, find_ws, first_ws, lines, lower,
    owned, parse_u16, parse_u16_str, split_lines, split_whitespace, str_eq, string_of_range, to_lowercase_ascii,
    trim, trim_str, words,
};

verus! {

/// A `Host` block of an SSH config file.
#[derive(Debug)]
pub struct SshConfigEntry {
    pub alias: String,
    pub hostname: Option<String>,
    pub user: Option<String>,
    pub port: Option<u16>,
    pub identity_file: Option<String>,
}

pub struct EntryView {
    pub alias: Seq<char>,
    pub hostname: Option<Seq<char>>,
    pub user: Option<Seq<char>>,
    pub port: Option<u16>,
    pub identity_file: Option<Seq<char>>,
}

impl View for SshConfigEntry {
    type V = EntryView;

    open spec fn view(&self) -> EntryView {
        EntryView {
            alias: self.alias@,
            hostname: opt_view(self.hostname),
            user: opt_view(self.user),
            port: self.port,
            identity_file: opt_view(self.identity_file),
        }
    }
}

impl Clone for SshConfigEntry {
    fn clone(&self) -> (r: Self)
        ensures
            r == *self,
    {
        SshConfigEntry {
            alias: self.alias.clone(),
            hostname: clone_opt_string(&self.hostname),
            user: clone_opt_string(&self.user),
            port: self.port,
            identity_file: clone_opt_string(&self.identity_file),
        }
    }
}

pub open spec fn entries_view(v: Seq<SshConfigEntry>) -> Seq<EntryView> {
    v.map_values(|e: SshConfigEntry| e@)
}

pub open spec fn opt_entry_view(o: Option<SshConfigEntry>) -> Option<EntryView> {
    match o {
        Some(e) => Some(e@),
        None => None,
    }
}

/// An alias that is nothing but the `*` pattern.
pub open spec fn is_wildcard_alias(alias: Seq<char>) -> bool {
    trim(alias) == seq!['*']
}

/// A fresh entry for `Host alias`.
pub open spec fn new_entry(alias: Seq<char>) -> EntryView {
    EntryView { alias, hostname: None, user: None, port: None, identity_file: None }
}

/// `entries` with the block being read appended, unless there is none or it
/// is the catch-all `*` block.
pub open spec fn close_block(entries: Seq<EntryView>, cur: Option<EntryView>) -> Seq<EntryView> {
    match cur {
        Some(e) => if is_wildcard_alias(e.alias) {
            entries
        } else {
            entries.push(e)
        },
        None => entries,
    }
}

/// The effect of one directive (keyword already lower-cased) on the block being read.
pub open spec fn with_directive(e: EntryView, keyword: Seq<char>, arg: Seq<char>) -> EntryView {
    if keyword == "hostname"@ {
        EntryView { hostname: Some(arg), ..e }
    } else if keyword == "user"@ {
        EntryView { user: Some(arg), ..e }
    } else if keyword == "port"@ {
        match parse_u16(arg) {
            Some(p) => EntryView { port: Some(p), ..e },
            None => e,
        }
    } else if keyword == "identityfile"@ {
        EntryView { identity_file: Some(arg), ..e }
    } else {
        e
    }
}

/// A line that carries no directive: blank, a comment, or a single word.
pub open spec fn is_inert_line(line: Seq<char>) -> bool {
    let t = trim(line);
    t.len() == 0 || t[0] == '#' || first_ws(t) >= t.len()
}

/// The directive keyword of a line, lower-cased.
pub open spec fn line_keyword(line: Seq<char>) -> Seq<char> {
    let t = trim(line);
    lower(trim(t.take(first_ws(t))))
}

/// The argument of a line's directive.
pub open spec fn line_argument(line: Seq<char>) -> Seq<char> {
    let t = trim(line);
    trim(t.skip(first_ws(t) + 1))
}

/// The alias that a `Host` line names: the first word of its argument.
pub open spec fn host_alias(arg: Seq<char>) -> Seq<char> {
    if words(arg).len() > 0 {
        words(arg)[0]
    } else {
        seq![]
    }
}

/// Parser state: the finished entries and the block being read.
pub open spec fn config_step(
    st: (Seq<EntryView>, Option<EntryView>),
    line: Seq<char>,
) -> (Seq<EntryView>, Option<EntryView>) {
    if is_inert_line(line) {
        st
    } else {
        let keyword = line_keyword(line);
        let arg = line_argument(line);
        if keyword == "host"@ {
            let alias = host_alias(arg);
            (
                close_block(st.0, st.1),
                if alias.len() > 0 {
                    Some(new_entry(alias))
                } else {
                    None
                },
            )
        } else if keyword == "match"@ {
            (close_block(st.0, st.1), None)
        } else {
            match st.1 {
                Some(e) => (st.0, Some(with_directive(e, keyword, arg))),
                None => st,
            }
        }
    }
}

/// The parser state after reading the lines `ls`.
pub open spec fn config_state(ls: Seq<Seq<char>>) -> (Seq<EntryView>, Option<EntryView>)
    decreases ls.len(),
{
    if ls.len() == 0 {
        (seq![], None)
    } else {
        config_step(config_state(ls.drop_last()), ls.last())
    }
}

/// The entries that the lines `ls` declare.
pub open spec fn config_entries(ls: Seq<Seq<char>>) -> Seq<EntryView> {
    close_block(config_state(ls).0, config_state(ls).1)
}

/// The entries that an SSH config text declares.
pub open spec fn parse_config(content: Seq<char>) -> Seq<EntryView> {
    config_entries(lines(content))
}

/// The alias is the `*` pattern alone (surrounding whitespace ignored).
pub fn is_wildcard_only(alias: &str) -> (r: bool)
    ensures
        r == is_wildcard_alias(alias@),
{
    let t = trim_str(alias);
    let r = str_eq(t.as_str(), "*");
    proof {
        reveal_strlit("*");
        assert("*"@ =~= seq!['*']);
    }
    r
}

fn close_current(entries: &mut Vec<SshConfigEntry>, cur: Option<SshConfigEntry>)
    ensures
        entries_view(final(entries)@) == close_block(entries_view(old(entries)@), opt_entry_view(cur)),
{
    if let Some(e) = cur {
        if !is_wildcard_only(e.alias.as_str()) {
            entries.push(e);
            assert(entries_view(entries@) =~= entries_view(old(entries)@).push(e@));
        }
    }
}

fn apply_directive(e: &mut SshConfigEntry, keyword: &str, arg: &String)
    ensures
        final(e)@ == with_directive(old(e)@, keyword@, arg@),
{
    if str_eq(keyword, "hostname") {
        e.hostname = Some(arg.clone());
    } else if str_eq(keyword, "user") {
        e.user = Some(arg.clone());
    } else if str_eq(keyword, "port") {
        if let Some(p) = parse_u16_str(arg.as_str()) {
            e.port = Some(p);
        }
    } else if str_eq(keyword, "identityfile") {
        e.identity_file = Some(arg.clone());
    }
}

/// Reads one line of config text.
fn read_line(entries: &mut Vec<SshConfigEntry>, current: &mut Option<SshConfigEntry>, line: &str)
    ensures
        (entries_view(final(entries)@), opt_entry_view(*final(current))) == config_step(
            (entries_view(old(entries)@), opt_entry_view(*old(current))),
            line@,
        ),
{
    let trimmed = trim_str(line);
    let t = chars_of(trimmed.as_str());
    if t.len() == 0 || t[0] == '#' {
        return;
    }
    let k = find_ws(&t);
    if k >= t.len() {
        return;
    }
    let keyword_raw = string_of_range(&t, 0, k);
    assert(keyword_raw@ == t@.take(k as int));
    let keyword_trimmed = trim_str(keyword_raw.as_str());
    let keyword = to_lowercase_ascii(keyword_trimmed.as_str());
    let arg_raw = string_of_range(&t, k + 1, t.len());
    assert(arg_raw@ == t@.skip(k + 1));
    let arg = trim_str(arg_raw.as_str());
    assert(keyword@ == line_keyword(line@));
    assert(arg@ == line_argument(line@));
    if str_eq(keyword.as_str(), "host") {
        let prev = current.take();
        close_current(entries, prev);
        let ws = split_whitespace(arg.as_str());
        if ws.len() > 0 && !ws[0].as_str().is_empty() {
            *current = Some(
                SshConfigEntry {
                    alias: ws[0].clone(),
                    hostname: None,
                    user: None,
                    port: None,
                    identity_file: None,
                },
            );
        }
    } else if str_eq(keyword.as_str(), "match") {
        let prev = current.take();
        close_current(entries, prev);
    } else {
        match current {
            Some(e) => {
                apply_directive(e, keyword.as_str(), &arg);
            },
            None => {},
        }
    }
}

/// Parses SSH config text into its `Host` entries, in order of appearance.
/// `Match` blocks are skipped, `Host *` blocks are dropped, and only the
/// `HostName`, `User`, `Port` and `IdentityFile` directives are read.
pub fn parse_ssh_config_str(content: &str) -> (r: Vec<SshConfigEntry>)
    ensures
        entries_view(r@) == parse_config(content@),
        entries_view(r@) == declared_entries(lines(content@), lines(content@).len() as int),
{
    let ls = split_lines(content);
    let ghost lv = lines(content@);
    let mut entries: Vec<SshConfigEntry> = Vec::new();
    let mut current: Option<SshConfigEntry> = None;
    let mut i: usize = 0;
    assert(lv.take(0) =~= Seq::<Seq<char>>::empty());
    assert(entries_view(entries@) =~= Seq::<EntryView>::empty());
    while i < ls.len()
        invariant
            lv == lines(content@),
            ls@.len() == lv.len(),
            forall|k: int| 0 <= k < ls@.len() ==> #[trigger] ls@[k]@ == lv[k],
            i <= ls@.len(),
            (entries_view(entries@), opt_entry_view(current)) == config_state(lv.take(i as int)),
        decreases ls@.len() - i,
    {
        assert(lv.take(i + 1).drop_last() =~= lv.take(i as int));
        assert(lv.take(i + 1).last() == ls@[i as int]@);
        read_line(&mut entries, &mut current, ls[i].as_str());
        i += 1;
    }
    assert(lv.take(ls@.len() as int) =~= lv);
    close_current(&mut entries, current);
    proof {
        lemma_parse_config_declared(content@);
    }
    entries
}

/// The target that an entry describes: it needs a host name and a user, and
/// the host name must not be a pattern (no `*` or `?`). The target is named
/// after the alias; the port defaults to 22 and the key to
/// `~/.ssh/id_ed25519`.
pub open spec fn entry_target(e: EntryView) -> Option<TargetView> {
    match (e.hostname, e.user) {
        (Some(host), Some(user)) => if host.contains('*') || host.contains('?') {
            None
        } else {
            Some(
                TargetView {
                    name: e.alias,
                    host,
                    port: match e.port {
                        Some(p) => p,
                        None => 22,
                    },
                    user,
                    auth: AuthView::KeyFile {
                        private_key: match e.identity_file {
                            Some(k) => k,
                            None => "~/.ssh/id_ed25519"@,
                        },
                        passphrase: None,
                    },
                },
            )
        },
        _ => None,
    }
}

pub open spec fn opt_target_view(o: Option<TargetProfile>) -> Option<TargetView> {
    match o {
        Some(t) => Some(t@),
        None => None,
    }
}

impl SshConfigEntry {
    /// Converts this entry into a target profile; `None` when the entry has
    /// no host name or no user, or its host name is a pattern.
    pub fn to_target_profile(&self) -> (r: Option<TargetProfile>)
        ensures
            opt_target_view(r) == entry_target(self@),
    {
        let host = match &self.hostname {
            Some(h) => h.clone(),
            None => {
                return None;
            },
        };
        let user = match &self.user {
            Some(u) => u.clone(),
            None => {
                return None;
            },
        };
        if contains_char(host.as_str(), '*') || contains_char(host.as_str(), '?') {
            return None;
        }
        let port = match self.port {
            Some(p) => p,
            None => 22,
        };
        let private_key = match &self.identity_file {
            Some(k) => k.clone(),
            None => owned("~/.ssh/id_ed25519"),
        };
        Some(
            TargetProfile {
                name: self.alias.clone(),
                host,
                port,
                user,
                auth: AuthMethod::KeyFile { private_key, passphrase: None },
            },
        )
    }
}

/// `t` and `p` have the same name (ignoring ASCII case), or the same
/// endpoint: host ignoring ASCII case, same port and same user.
pub open spec fn clash(t: TargetView, p: TargetView) -> bool {
    eq_ignore_case(t.name, p.name) || (eq_ignore_case(t.host, p.host) && t.port == p.port && t.user
        == p.user)
}

/// `p` clashes with one of `ts`.
pub open spec fn clashes(ts: Seq<TargetView>, p: TargetView) -> bool {
    exists|i: int| 0 <= i < ts.len() && clash(#[trigger] ts[i], p)
}

/// Import state after the entries `es`: the profiles taken and how many were skipped.
pub open spec fn import_state(existing: Seq<TargetView>, es: Seq<EntryView>) -> (
    Seq<TargetView>,
    nat,
)
    decreases es.len(),
{
    if es.len() == 0 {
        (seq![], 0)
    } else {
        let st = import_state(existing, es.drop_last());
        match entry_target(es.last()) {
            None => (st.0, st.1 + 1),
            Some(p) => if clashes(existing + st.0, p) {
                (st.0, st.1 + 1)
            } else {
                (st.0.push(p), st.1)
            },
        }
    }
}

pub open spec fn targets_view(v: Seq<TargetProfile>) -> Seq<TargetView> {
    v.map_values(|t: TargetProfile| t@)
}

fn clashes_with(ts: &[TargetProfile], p: &TargetProfile) -> (r: bool)
    ensures
        r == clashes(targets_view(ts@), p@),
{
    let ghost tv = targets_view(ts@);
    let mut i: usize = 0;
    while i < ts.len()
        invariant
            i <= ts@.len(),
            tv == targets_view(ts@),
            forall|k: int| 0 <= k < i ==> !clash(#[trigger] tv[k], p@),
        decreases ts@.len() - i,
    {
        let t = &ts[i];
        let same_name = eq_ignore_ascii_case(t.name.as_str(), p.name.as_str());
        let same_endpoint = eq_ignore_ascii_case(t.host.as_str(), p.host.as_str()) && t.port
            == p.port && str_eq(t.user.as_str(), p.user.as_str());
        assert(tv[i as int] == t@);
        if same_name || same_endpoint {
            assert(clash(tv[i as int], p@));
            return true;
        }
        i += 1;
    }
    false
}

/// Turns config entries into new targets, skipping entries that are not
/// usable as targets and those whose name or endpoint is already taken by an
/// existing target or by one imported before it. Returns the new targets and
/// the number of skipped entries.
pub fn import_ssh_config_as_targets(
    existing_targets: &[TargetProfile],
    entries: Vec<SshConfigEntry>,
) -> (r: (Vec<TargetProfile>, usize))
    ensures
        (targets_view(r.0@), r.1 as nat) == import_state(
            targets_view(existing_targets@),
            entries_view(entries@),
        ),
        targets_view(r.0@) == kept_targets(
            targets_view(existing_targets@),
            candidates(entries_view(entries@)),
        ),
        is_subsequence(targets_view(r.0@), candidates(entries_view(entries@))),
        r.0@.len() + r.1 == entries@.len(),
{
    let ghost ex = targets_view(existing_targets@);
    let ghost ev = entries_view(entries@);
    let mut all: Vec<TargetProfile> = Vec::new();
    let mut i: usize = 0;
    while i < existing_targets.len()
        invariant
            i <= existing_targets@.len(),
            targets_view(all@) == ex.take(i as int),
            ex == targets_view(existing_targets@),
        decreases existing_targets@.len() - i,
    {
        let ghost prev = targets_view(all@);
        let t = existing_targets[i].clone();
        assert(t@ == ex[i as int]);
        all.push(t);
        assert(targets_view(all@) =~= prev.push(ex[i as int]));
        assert(ex.take(i + 1) =~= ex.take(i as int).push(ex[i as int]));
        i += 1;
    }
    assert(ex.take(existing_targets@.len() as int) =~= ex);
    let mut imported: Vec<TargetProfile> = Vec::new();
    let mut skipped: usize = 0;
    let mut j: usize = 0;
    assert(ev.take(0) =~= Seq::<EntryView>::empty());
    assert(targets_view(imported@) =~= Seq::<TargetView>::empty());
    while j < entries.len()
        invariant
            j <= entries@.len(),
            ex == targets_view(existing_targets@),
            ev == entries_view(entries@),
            targets_view(all@) == ex + targets_view(imported@),
            (targets_view(imported@), skipped as nat) == import_state(ex, ev.take(j as int)),
            skipped <= j,
        decreases entries@.len() - j,
    {
        assert(ev.take(j + 1).drop_last() =~= ev.take(j as int));
        assert(ev.take(j + 1).last() == entries@[j as int]@);
        match entries[j].to_target_profile() {
            None => {
                skipped += 1;
            },
            Some(p) => {
                if clashes_with(all.as_slice(), &p) {
                    skipped += 1;
                } else {
                    let ghost prev_imported = targets_view(imported@);
                    let ghost prev_all = targets_view(all@);
                    all.push(p.clone());
                    imported.push(p);
                    assert(targets_view(imported@) =~= prev_imported.push(p@));
                    assert(targets_view(all@) =~= prev_all.push(p@));
                    assert(ex + targets_view(imported@) =~= (ex + prev_imported).push(p@));
                }
            },
        }
        j += 1;
    }
    assert(ev.take(entries@.len() as int) =~= ev);
    proof {
        lemma_import_keeps_free_targets_in_order(ex, ev);
    }
    (imported, skipped)
}

/// Every entry is either imported or counted as skipped.
pub proof fn lemma_import_accounts_for_every_entry(existing: Seq<TargetView>, es: Seq<EntryView>)
    ensures
        import_state(existing, es).0.len() + import_state(existing, es).1 == es.len(),
    decreases es.len(),
{
    if es.len() > 0 {
        lemma_import_accounts_for_every_entry(existing, es.drop_last());
    }
}

/// Importing creates no duplicate: no imported target has the name or the
/// endpoint of an existing target, nor of another imported target.
pub proof fn lemma_import_adds_no_duplicate(existing: Seq<TargetView>, es: Seq<EntryView>)
    ensures
        forall|i: int, k: int|
            0 <= i < import_state(existing, es).0.len() && 0 <= k < existing.len() ==> !clash(
                #[trigger] existing[k],
                #[trigger] import_state(existing, es).0[i],
            ),
        forall|i: int, j: int|
            0 <= i < j < import_state(existing, es).0.len() ==> !clash(
                #[trigger] import_state(existing, es).0[i],
                #[trigger] import_state(existing, es).0[j],
            ),
    decreases es.len(),
{
    if es.len() > 0 {
        let prev = import_state(existing, es.drop_last()).0;
        lemma_import_adds_no_duplicate(existing, es.drop_last());
        match entry_target(es.last()) {
            None => {},
            Some(p) => {
                if !clashes(existing + prev, p) {
                    let cur = prev.push(p);
                    assert(cur == import_state(existing, es).0);
                    assert forall|i: int, k: int|
                        0 <= i < cur.len() && 0 <= k < existing.len() implies !clash(
                        #[trigger] existing[k],
                        #[trigger] cur[i],
                    ) by {
                        if i == prev.len() {
                            assert((existing + prev)[k] == existing[k]);
                        } else {
                            assert(cur[i] == prev[i]);
                        }
                    }
                    assert forall|i: int, j: int| 0 <= i < j < cur.len() implies !clash(
                        #[trigger] cur[i],
                        #[trigger] cur[j],
                    ) by {
                        assert(cur[i] == prev[i]);
                        if j == prev.len() {
                            assert((existing + prev)[existing.len() + i] == prev[i]);
                        } else {
                            assert(cur[j] == prev[j]);
                        }
                    }
                }
            },
        }
    }
}

/// Entries whose targets all clash with `taken` are all skipped.
proof fn lemma_import_all_taken(taken: Seq<TargetView>, es: Seq<EntryView>)
    requires
        forall|j: int|
            0 <= j < es.len() ==> match entry_target(#[trigger] es[j]) {
                None => true,
                Some(p) => clashes(taken, p),
            },
    ensures
        import_state(taken, es) == (Seq::<TargetView>::empty(), es.len()),
    decreases es.len(),
{
    if es.len() > 0 {
        assert forall|j: int| 0 <= j < es.drop_last().len() implies match entry_target(
            #[trigger] es.drop_last()[j],
        ) {
            None => true,
            Some(p) => clashes(taken, p),
        } by {
            assert(es.drop_last()[j] == es[j]);
        }
        lemma_import_all_taken(taken, es.drop_last());
        assert(Seq::<TargetView>::empty() + taken =~= taken);
        assert(es[es.len() - 1] == es.last());
        match entry_target(es.last()) {
            None => {},
            Some(p) => {
                assert(clashes(taken, p));
                assert(taken + Seq::<TargetView>::empty() =~= taken);
            },
        }
    }
}

/// After an import, the target of every entry clashes with an existing or
/// an imported target (or the entry has none).
proof fn lemma_import_leaves_every_target_taken(existing: Seq<TargetView>, es: Seq<EntryView>)
    ensures
        forall|j: int|
            0 <= j < es.len() ==> match entry_target(#[trigger] es[j]) {
                None => true,
                Some(p) => clashes(existing + import_state(existing, es).0, p),
            },
    decreases es.len(),
{
    if es.len() > 0 {
        let prev = import_state(existing, es.drop_last()).0;
        let cur = import_state(existing, es).0;
        lemma_import_leaves_every_target_taken(existing, es.drop_last());
        // `existing + prev` is a prefix of `existing + cur`.
        assert forall|k: int| 0 <= k < (existing + prev).len() implies #[trigger] (existing
            + cur)[k] == (existing + prev)[k] by {
            if k >= existing.len() {
                assert(cur[k - existing.len()] == prev[k - existing.len()]);
            }
        }
        assert forall|j: int| 0 <= j < es.len() implies match entry_target(#[trigger] es[j]) {
            None => true,
            Some(p) => clashes(existing + cur, p),
        } by {
            let t = entry_target(es[j]);
            if j < es.len() - 1 {
                assert(es.drop_last()[j] == es[j]);
                match t {
                    None => {},
                    Some(p) => {
                        assert(clashes(existing + prev, p));
                        let k = choose|k: int|
                            0 <= k < (existing + prev).len() && clash(
                                #[trigger] (existing + prev)[k],
                                p,
                            );
                        assert((existing + cur)[k] == (existing + prev)[k]);
                    },
                }
            } else {
                assert(es[j] == es.last());
                match t {
                    None => {},
                    Some(p) => {
                        if clashes(existing + prev, p) {
                            let k = choose|k: int|
                                0 <= k < (existing + prev).len() && clash(
                                    #[trigger] (existing + prev)[k],
                                    p,
                                );
                            assert((existing + cur)[k] == (existing + prev)[k]);
                        } else {
                            assert(cur == prev.push(p));
                            let k: int = (existing.len() + prev.len()) as int;
                            assert((existing + cur)[k] == p);
                            assert(clash(p, p));
                        }
                    },
                }
            }
        }
    }
}

/// Importing the same entries a second time, with the targets of the first
/// import now among the existing ones, adds nothing and skips every entry.
pub proof fn lemma_import_twice_adds_nothing(existing: Seq<TargetView>, es: Seq<EntryView>)
    ensures
        import_state(existing + import_state(existing, es).0, es) == (
            Seq::<TargetView>::empty(),
            es.len(),
        ),
{
    lemma_import_leaves_every_target_taken(existing, es);
    lemma_import_all_taken(existing + import_state(existing, es).0, es);
}

pub open spec fn named_entries(es: Seq<EntryView>) -> bool {
    forall|i: int|
        0 <= i < es.len() ==> (#[trigger] es[i]).alias.len() > 0 && !is_wildcard_alias(es[i].alias)
}

proof fn lemma_config_state_named(ls: Seq<Seq<char>>)
    ensures
        named_entries(config_state(ls).0),
        config_state(ls).1 matches Some(e) ==> e.alias.len() > 0,
        named_entries(config_entries(ls)),
    decreases ls.len(),
{
    if ls.len() > 0 {
        lemma_config_state_named(ls.drop_last());
    }
    let st = config_state(ls);
    match st.1 {
        Some(e) => {
            if !is_wildcard_alias(e.alias) {
                assert forall|i: int| 0 <= i < st.0.push(e).len() implies (
                #[trigger] st.0.push(e)[i]).alias.len() > 0 && !is_wildcard_alias(
                    st.0.push(e)[i].alias,
                ) by {
                    if i < st.0.len() {
                        assert(st.0.push(e)[i] == st.0[i]);
                    }
                }
            }
        },
        None => {},
    }
}

/// The parser yields only named hosts: every entry has a non-empty alias,
/// and the catch-all `Host *` block never becomes an entry.
pub proof fn lemma_parsed_entries_are_named(content: Seq<char>)
    ensures
        named_entries(parse_config(content)),
{
    lemma_config_state_named(lines(content));
}

/// The targets that the entries describe, in order, skipping entries that
/// describe none.
pub open spec fn candidates(es: Seq<EntryView>) -> Seq<TargetView>
    decreases es.len(),
{
    if es.len() == 0 {
        seq![]
    } else {
        match entry_target(es.last()) {
            Some(p) => candidates(es.drop_last()).push(p),
            None => candidates(es.drop_last()),
        }
    }
}

/// The targets of `ps`, in order, that clash with none of `taken` and none
/// of those kept before them.
pub open spec fn kept_targets(taken: Seq<TargetView>, ps: Seq<TargetView>) -> Seq<TargetView>
    decreases ps.len(),
{
    if ps.len() == 0 {
        seq![]
    } else {
        let k = kept_targets(taken, ps.drop_last());
        if clashes(taken + k, ps.last()) {
            k
        } else {
            k.push(ps.last())
        }
    }
}

/// `a` is `b` with some elements left out, the rest in their order.
pub open spec fn is_subsequence<A>(a: Seq<A>, b: Seq<A>) -> bool
    decreases b.len(),
{
    if b.len() == 0 {
        a.len() == 0
    } else {
        is_subsequence(a, b.drop_last()) || (a.len() > 0 && a.last() == b.last()
            && is_subsequence(a.drop_last(), b.drop_last()))
    }
}

proof fn lemma_kept_targets_subsequence(taken: Seq<TargetView>, ps: Seq<TargetView>)
    ensures
        is_subsequence(kept_targets(taken, ps), ps),
    decreases ps.len(),
{
    if ps.len() > 0 {
        let k = kept_targets(taken, ps.drop_last());
        lemma_kept_targets_subsequence(taken, ps.drop_last());
        assert(k.push(ps.last()).drop_last() =~= k);
    }
}

proof fn lemma_import_is_kept_candidates(existing: Seq<TargetView>, es: Seq<EntryView>)
    ensures
        import_state(existing, es).0 == kept_targets(existing, candidates(es)),
    decreases es.len(),
{
    if es.len() > 0 {
        lemma_import_is_kept_candidates(existing, es.drop_last());
        match entry_target(es.last()) {
            Some(p) => {
                assert(candidates(es).drop_last() =~= candidates(es.drop_last()));
            },
            None => {},
        }
    }
}

/// Importing keeps, in their order, exactly the targets that the entries
/// describe and that clash with no existing target and no target imported
/// before them; every other entry is counted as skipped.
pub proof fn lemma_import_keeps_free_targets_in_order(existing: Seq<TargetView>, es: Seq<EntryView>)
    ensures
        import_state(existing, es).0 == kept_targets(existing, candidates(es)),
        is_subsequence(import_state(existing, es).0, candidates(es)),
        import_state(existing, es).1 == es.len() - import_state(existing, es).0.len(),
{
    lemma_import_is_kept_candidates(existing, es);
    lemma_kept_targets_subsequence(existing, candidates(es));
    lemma_import_accounts_for_every_entry(existing, es);
}

/// A line that ends the block being read: a `Host` or a `Match` directive.
pub open spec fn starts_block(line: Seq<char>) -> bool {
    !is_inert_line(line) && (line_keyword(line) == "host"@ || line_keyword(line) == "match"@)
}

/// A `Host` line that declares an entry: its alias is not empty and is not
/// the catch-all `*`.
pub open spec fn declares_entry(line: Seq<char>) -> bool {
    &&& starts_block(line)
    &&& line_keyword(line) == "host"@
    &&& host_alias(line_argument(line)).len() > 0
    &&& !is_wildcard_alias(host_alias(line_argument(line)))
}

/// The first line at or after `j` that starts a block, or the number of lines.
pub open spec fn next_block(ls: Seq<Seq<char>>, j: int) -> int
    decreases ls.len() - j,
{
    if j >= ls.len() {
        ls.len() as int
    } else if starts_block(ls[j]) {
        j
    } else {
        next_block(ls, j + 1)
    }
}

/// `e` after the directives of the lines from `from` up to `to`, in order.
pub open spec fn after_directives(e: EntryView, ls: Seq<Seq<char>>, from: int, to: int) -> EntryView
    decreases to - from,
{
    if to <= from {
        e
    } else {
        let p = after_directives(e, ls, from, to - 1);
        let l = ls[to - 1];
        if is_inert_line(l) {
            p
        } else {
            with_directive(p, line_keyword(l), line_argument(l))
        }
    }
}

/// The entry that the `Host` line `i` declares: its alias, with the
/// directives of the lines after it up to the next `Host` or `Match` line.
pub open spec fn block_entry(ls: Seq<Seq<char>>, i: int) -> EntryView {
    after_directives(new_entry(host_alias(line_argument(ls[i]))), ls, i + 1, next_block(ls, i + 1))
}

/// The entries that the lines before `n` declare, in order.
pub open spec fn declared_entries(ls: Seq<Seq<char>>, n: int) -> Seq<EntryView>
    decreases n,
{
    if n <= 0 {
        seq![]
    } else if declares_entry(ls[n - 1]) {
        declared_entries(ls, n - 1).push(block_entry(ls, n - 1))
    } else {
        declared_entries(ls, n - 1)
    }
}

/// The last line before `k` that starts a block, or -1.
pub open spec fn last_block(ls: Seq<Seq<char>>, k: int) -> int
    decreases k,
{
    if k <= 0 {
        -1
    } else if starts_block(ls[k - 1]) {
        k - 1
    } else {
        last_block(ls, k - 1)
    }
}

proof fn lemma_last_block(ls: Seq<Seq<char>>, k: int)
    requires
        0 <= k <= ls.len(),
    ensures
        -1 <= last_block(ls, k) < k,
        last_block(ls, k) >= 0 ==> starts_block(ls[last_block(ls, k)]),
        forall|j: int| last_block(ls, k) < j < k ==> !starts_block(#[trigger] ls[j]),
    decreases k,
{
    if k > 0 {
        lemma_last_block(ls, k - 1);
    }
}

proof fn lemma_next_block(ls: Seq<Seq<char>>, j: int, k: int)
    requires
        0 <= j <= k <= ls.len(),
        forall|m: int| j <= m < k ==> !starts_block(#[trigger] ls[m]),
        k == ls.len() || starts_block(ls[k]),
    ensures
        next_block(ls, j) == k,
    decreases k - j,
{
    if j < k {
        lemma_next_block(ls, j + 1, k);
    }
}

proof fn lemma_declared_flat(ls: Seq<Seq<char>>, lo: int, m: int)
    requires
        0 <= lo <= m <= ls.len(),
        forall|j: int| lo <= j < m ==> !starts_block(#[trigger] ls[j]),
    ensures
        declared_entries(ls, m) == declared_entries(ls, lo),
    decreases m - lo,
{
    if lo < m {
        lemma_declared_flat(ls, lo, m - 1);
    }
}

proof fn lemma_after_directives_alias(e: EntryView, ls: Seq<Seq<char>>, from: int, to: int)
    ensures
        after_directives(e, ls, from, to).alias == e.alias,
    decreases to - from,
{
    if to > from {
        lemma_after_directives_alias(e, ls, from, to - 1);
    }
}

/// The open block after reading the lines before `k`, as the declarative
/// reading gives it.
pub open spec fn open_block(ls: Seq<Seq<char>>, k: int) -> Option<EntryView> {
    let b = last_block(ls, k);
    if b >= 0 && line_keyword(ls[b]) == "host"@ && host_alias(line_argument(ls[b])).len() > 0 {
        Some(after_directives(new_entry(host_alias(line_argument(ls[b]))), ls, b + 1, k))
    } else {
        None
    }
}

/// Closing the open block before line `k`, which starts a block or is the
/// end, adds the entry of the last block start if it declares one.
proof fn lemma_close_open_block(ls: Seq<Seq<char>>, k: int)
    requires
        0 <= k <= ls.len(),
        k == ls.len() || starts_block(ls[k]),
    ensures
        close_block(declared_entries(ls, last_block(ls, k)), open_block(ls, k)) == declared_entries(
            ls,
            k,
        ),
{
    lemma_last_block(ls, k);
    let b = last_block(ls, k);
    if b < 0 {
        lemma_declared_flat(ls, 0, k);
    } else {
        lemma_declared_flat(ls, b + 1, k);
        lemma_next_block(ls, b + 1, k);
        match open_block(ls, k) {
            Some(e) => {
                lemma_after_directives_alias(new_entry(host_alias(line_argument(ls[b]))), ls, b + 1, k);
            },
            None => {},
        }
    }
}

proof fn lemma_config_state_declared(ls: Seq<Seq<char>>, k: int)
    requires
        0 <= k <= ls.len(),
    ensures
        config_state(ls.take(k)).0 == declared_entries(ls, last_block(ls, k)),
        config_state(ls.take(k)).1 == open_block(ls, k),
    decreases k,
{
    if k == 0 {
        assert(ls.take(0) =~= Seq::<Seq<char>>::empty());
    } else {
        let j = k - 1;
        lemma_config_state_declared(ls, j);
        assert(ls.take(k).drop_last() =~= ls.take(j));
        assert(ls.take(k).last() == ls[j]);
        let l = ls[j];
        lemma_last_block(ls, j);
        if starts_block(l) {
            lemma_close_open_block(ls, j);
            assert(last_block(ls, k) == j);
            let e = new_entry(host_alias(line_argument(l)));
            assert(after_directives(e, ls, k, k) == e);
        } else {
            let b = last_block(ls, j);
            assert(last_block(ls, k) == b);
            if b >= 0 && line_keyword(ls[b]) == "host"@ && host_alias(line_argument(ls[b])).len()
                > 0 {
                let e = new_entry(host_alias(line_argument(ls[b])));
                assert(after_directives(e, ls, b + 1, k) == (if is_inert_line(l) {
                    after_directives(e, ls, b + 1, j)
                } else {
                    with_directive(after_directives(e, ls, b + 1, j), line_keyword(l), line_argument(l))
                }));
            }
        }
    }
}

/// The parser reads the config declaratively: one entry per `Host` line with
/// a non-empty alias other than `*`, in file order, holding that alias and
/// what the `HostName`, `User`, `Port` and `IdentityFile` lines up to the
/// next `Host` or `Match` line set (the last such line winning, a `Port`
/// that is no valid port leaving it unset); blank lines, comments and lines
/// of a single word are ignored.
pub proof fn lemma_parse_config_declared(content: Seq<char>)
    ensures
        parse_config(content) == declared_entries(lines(content), lines(content).len() as int),
{
    let ls = lines(content);
    lemma_config_state_declared(ls, ls.len() as int);
    assert(ls.take(ls.len() as int) =~= ls);
    lemma_close_open_block(ls, ls.len() as int);
}

/// An entry with a host name and a user gives a target exactly when the host
/// name holds no `*` or `?` (whatever else it holds); the target is named
/// after the alias and keeps the host name, the user, and the port (22 when
/// none is set). Without a host name or a user there is no target.
pub proof fn lemma_entry_target_rule(e: EntryView)
    ensures
        (e.hostname is None || e.user is None) ==> entry_target(e) is None,
        e.hostname is Some && e.user is Some ==> {
            let h = e.hostname->0;
            &&& (entry_target(e) is None <==> (h.contains('*') || h.contains('?')))
            &&& entry_target(e) is Some ==> {
                let t = entry_target(e)->0;
                &&& t.name == e.alias
                &&& t.host == h
                &&& t.user == e.user->0
                &&& t.port == (if e.port is Some {
                    e.port->0
                } else {
                    22u16
                })
            }
        },
{
}

/// The user of a block is the argument of its last `User` line, whatever
/// other directives come before or after it; with no `User` line it stays
/// as it was.
pub proof fn lemma_last_user_line_wins(e: EntryView, ls: Seq<Seq<char>>, from: int, to: int)
    requires
        0 <= from <= to <= ls.len(),
    ensures
        (forall|m: int|
            from <= m < to ==> !(!is_inert_line(#[trigger] ls[m]) && line_keyword(ls[m]) == "user"@))
            ==> after_directives(e, ls, from, to).user == e.user,
        forall|m: int|
            from <= m < to && !is_inert_line(#[trigger] ls[m]) && line_keyword(ls[m]) == "user"@
                && (forall|n: int|
                m < n < to ==> !(!is_inert_line(#[trigger] ls[n]) && line_keyword(ls[n])
                    == "user"@)) ==> after_directives(e, ls, from, to).user == Some(
                line_argument(ls[m]),
            ),
    decreases to - from,
{
    reveal_strlit("user");
    reveal_strlit("hostname");
    reveal_strlit("port");
    reveal_strlit("identityfile");
    assert("user"@ != "hostname"@) by {
        assert("user"@.len() != "hostname"@.len());
    }
    assert("user"@ != "port"@) by {
        assert("user"@[0] != "port"@[0]);
    }
    assert("user"@ != "identityfile"@) by {
        assert("user"@.len() != "identityfile"@.len());
    }
    if to > from {
        lemma_last_user_line_wins(e, ls, from, to - 1);
    }
}

/// For every `Host` block, the parsed entry's user is the argument of the
/// block's last `User` line, and unset when the block has none.
pub proof fn lemma_block_user(ls: Seq<Seq<char>>, i: int)
    requires
        0 <= i < ls.len(),
    ensures
        ({
            let end = next_block(ls, i + 1);
            &&& (forall|m: int|
                i < m < end ==> !(!is_inert_line(#[trigger] ls[m]) && line_keyword(ls[m])
                    == "user"@)) ==> block_entry(ls, i).user is None
            &&& forall|m: int|
                i < m < end && !is_inert_line(#[trigger] ls[m]) && line_keyword(ls[m]) == "user"@
                    && (forall|n: int|
                    m < n < end ==> !(!is_inert_line(#[trigger] ls[n]) && line_keyword(ls[n])
                        == "user"@)) ==> block_entry(ls, i).user == Some(line_argument(ls[m]))
        }),
{
    lemma_next_block_bounds(ls, i + 1);
    lemma_last_user_line_wins(
        new_entry(host_alias(line_argument(ls[i]))),
        ls,
        i + 1,
        next_block(ls, i + 1),
    );
}

proof fn lemma_next_block_bounds(ls: Seq<Seq<char>>, j: int)
    requires
        0 <= j <= ls.len(),
    ensures
        j <= next_block(ls, j) <= ls.len(),
    decreases ls.len() - j,
{
    if j < ls.len() {
        lemma_next_block_bounds(ls, j + 1);
    }
}

proof fn lemma_declared_entries_are_blocks(ls: Seq<Seq<char>>, n: int)
    requires
        0 <= n <= ls.len(),
    ensures
        forall|k: int|
            0 <= k < declared_entries(ls, n).len() ==> exists|i: int|
                0 <= i < n && declares_entry(ls[i]) && #[trigger] declared_entries(ls, n)[k]
                    == block_entry(ls, i),
    decreases n,
{
    if n > 0 {
        lemma_declared_entries_are_blocks(ls, n - 1);
        let prev = declared_entries(ls, n - 1);
        assert forall|k: int| 0 <= k < declared_entries(ls, n).len() implies exists|i: int|
            0 <= i < n && declares_entry(ls[i]) && #[trigger] declared_entries(ls, n)[k]
                == block_entry(ls, i) by {
            if k < prev.len() {
                assert(declared_entries(ls, n)[k] == prev[k]);
                let i = choose|i: int|
                    0 <= i < n - 1 && declares_entry(ls[i]) && #[trigger] prev[k] == block_entry(
                        ls,
                        i,
                    );
                assert(0 <= i < n && declares_entry(ls[i]) && declared_entries(ls, n)[k]
                    == block_entry(ls, i));
            } else {
                assert(declares_entry(ls[n - 1]) && declared_entries(ls, n)[k] == block_entry(
                    ls,
                    n - 1,
                ));
            }
        }
    }
}

/// Every parsed entry is the block of a `Host` line of the text: its user is
/// the argument of the last `User` line of that block (see
/// `lemma_block_user`), whatever other directives the block holds.
pub proof fn lemma_parsed_entries_are_blocks(content: Seq<char>)
    ensures
        forall|k: int|
            0 <= k < parse_config(content).len() ==> exists|i: int|
                0 <= i < lines(content).len() && declares_entry(lines(content)[i])
                    && #[trigger] parse_config(content)[k] == block_entry(lines(content), i),
{
    let ls = lines(content);
    let n = ls.len() as int;
    lemma_parse_config_declared(content);
    lemma_declared_entries_are_blocks(ls, n);
    assert forall|k: int| 0 <= k < parse_config(content).len() implies exists|i: int|
        0 <= i < lines(content).len() && declares_entry(lines(content)[i])
            && #[trigger] parse_config(content)[k] == block_entry(lines(content), i) by {
        assert(declared_entries(ls, n)[k] == parse_config(content)[k]);
        let i = choose|i: int|
            0 <= i < n && declares_entry(ls[i]) && #[trigger] declared_entries(ls, n)[k]
                == block_entry(ls, i);
        assert(0 <= i < lines(content).len() && declares_entry(lines(content)[i])
            && parse_config(content)[k] == block_entry(lines(content), i));
    }
}

/// The host name of a block is the argument of its last `HostName` line,
/// whatever other directives come before or after it; with no `HostName`
/// line it stays as it was.
pub proof fn lemma_last_host_name_line_wins(e: EntryView, ls: Seq<Seq<char>>, from: int, to: int)
    requires
        0 <= from <= to <= ls.len(),
    ensures
        (forall|m: int|
            from <= m < to ==> !(!is_inert_line(#[trigger] ls[m]) && line_keyword(ls[m]) == "hostname"@))
            ==> after_directives(e, ls, from, to).hostname == e.hostname,
        forall|m: int|
            from <= m < to && !is_inert_line(#[trigger] ls[m]) && line_keyword(ls[m]) == "hostname"@
                && (forall|n: int|
                m < n < to ==> !(!is_inert_line(#[trigger] ls[n]) && line_keyword(ls[n])
                    == "hostname"@)) ==> after_directives(e, ls, from, to).hostname == Some(
                line_argument(ls[m]),
            ),
    decreases to - from,
{
    reveal_strlit("user");
    reveal_strlit("hostname");
    reveal_strlit("port");
    reveal_strlit("identityfile");
    assert("hostname"@ != "user"@) by {
        assert("hostname"@.len() != "user"@.len() || "hostname"@[0] != "user"@[0]);
    }
    assert("hostname"@ != "port"@) by {
        assert("hostname"@.len() != "port"@.len() || "hostname"@[0] != "port"@[0]);
    }
    assert("hostname"@ != "identityfile"@) by {
        assert("hostname"@.len() != "identityfile"@.len() || "hostname"@[0] != "identityfile"@[0]);
    }
    if to > from {
        lemma_last_host_name_line_wins(e, ls, from, to - 1);
    }
}

/// The identity file of a block is the argument of its last `IdentityFile`
/// line, whatever other directives come before or after it; with no
/// `IdentityFile` line it stays as it was.
pub proof fn lemma_last_identity_file_line_wins(e: EntryView, ls: Seq<Seq<char>>, from: int, to: int)
    requires
        0 <= from <= to <= ls.len(),
    ensures
        (forall|m: int|
            from <= m < to ==> !(!is_inert_line(#[trigger] ls[m]) && line_keyword(ls[m]) == "identityfile"@))
            ==> after_directives(e, ls, from, to).identity_file == e.identity_file,
        forall|m: int|
            from <= m < to && !is_inert_line(#[trigger] ls[m]) && line_keyword(ls[m]) == "identityfile"@
                && (forall|n: int|
                m < n < to ==> !(!is_inert_line(#[trigger] ls[n]) && line_keyword(ls[n])
                    == "identityfile"@)) ==> after_directives(e, ls, from, to).identity_file == Some(
                line_argument(ls[m]),
            ),
    decreases to - from,
{
    reveal_strlit("user");
    reveal_strlit("hostname");
    reveal_strlit("port");
    reveal_strlit("identityfile");
    assert("identityfile"@ != "hostname"@) by {
        assert("identityfile"@.len() != "hostname"@.len() || "identityfile"@[0] != "hostname"@[0]);
    }
    assert("identityfile"@ != "user"@) by {
        assert("identityfile"@.len() != "user"@.len() || "identityfile"@[0] != "user"@[0]);
    }
    assert("identityfile"@ != "port"@) by {
        assert("identityfile"@.len() != "port"@.len() || "identityfile"@[0] != "port"@[0]);
    }
    if to > from {
        lemma_last_identity_file_line_wins(e, ls, from, to - 1);
    }
}

} // verus!
