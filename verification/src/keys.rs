//! Rules for local SSH keys: key names, `~` expansion, public key lines,
//! `ssh-keygen` output, and the order in which keys are listed.
use vstd::prelude::*;

use crate::models::{LocalKey, LocalKeyView, clone_opt_string};
use crate::text::{
    chars_of, contains_char, join, join_from, owned, split_whitespace, str_eq, string_of_range,
    lemma_trim_idempotent, trim, trim_str, words,
};

verus! {

/// Why a key operation was refused.
#[derive(Debug, PartialEq, Eq, Structural)]
pub enum KeyError {
    /// The key name is empty once trimmed.
    EmptyName,
    /// The key name contains `/` or `\`.
    NameHasSeparator,
    /// The key name contains a NUL character.
    NameHasNul,
    /// The path is empty once trimmed.
    EmptyPath,
    /// The home directory could not be located.
    NoHomeDirectory,
    /// A public key text is empty once trimmed.
    EmptyPublicKey,
    /// No key name was given and the private key path has no file name.
    NoKeyName,
    /// A public key with other contents already exists under the chosen name.
    KeyExists,
}

impl KeyError {
    pub open spec fn spec_message(self) -> Seq<char> {
        match self {
            KeyError::EmptyName => "key name cannot be empty"@,
            KeyError::NameHasSeparator => "key name cannot contain path separators"@,
            KeyError::NameHasNul => "key name cannot contain null bytes"@,
            KeyError::EmptyPath => "path cannot be empty"@,
            KeyError::NoHomeDirectory => "could not locate home directory"@,
            KeyError::EmptyPublicKey => "public key is empty"@,
            KeyError::NoKeyName => "could not derive key name from private key filename"@,
            KeyError::KeyExists => "key already exists with different contents"@,
        }
    }

    /// The explanation shown to the user.
    pub fn message(&self) -> (r: &'static str)
        ensures
            r@ == self.spec_message(),
    {
        match self {
            KeyError::EmptyName => "key name cannot be empty",
            KeyError::NameHasSeparator => "key name cannot contain path separators",
            KeyError::NameHasNul => "key name cannot contain null bytes",
            KeyError::EmptyPath => "path cannot be empty",
            KeyError::NoHomeDirectory => "could not locate home directory",
            KeyError::EmptyPublicKey => "public key is empty",
            KeyError::NoKeyName => "could not derive key name from private key filename",
            KeyError::KeyExists => "key already exists with different contents",
        }
    }
}

/// The checked form of a key name: trimmed, non-empty, without path
/// separators or NUL characters.
pub open spec fn key_name_check(name: Seq<char>) -> Result<Seq<char>, KeyError> {
    let t = trim(name);
    if t.len() == 0 {
        Err(KeyError::EmptyName)
    } else if t.contains('/') || t.contains('\\') {
        Err(KeyError::NameHasSeparator)
    } else if t.contains('\0') {
        Err(KeyError::NameHasNul)
    } else {
        Ok(t)
    }
}

pub open spec fn result_view(r: Result<String, KeyError>) -> Result<Seq<char>, KeyError> {
    match r {
        Ok(s) => Ok(s@),
        Err(e) => Err(e),
    }
}

/// Checks a key name chosen by the user and returns it trimmed.
pub fn validate_key_name(name: &str) -> (r: Result<String, KeyError>)
    ensures
        result_view(r) == key_name_check(name@),
{
    let trimmed = trim_str(name);
    if trimmed.as_str().is_empty() {
        return Err(KeyError::EmptyName);
    }
    if contains_char(trimmed.as_str(), '/') || contains_char(trimmed.as_str(), '\\') {
        return Err(KeyError::NameHasSeparator);
    }
    if contains_char(trimmed.as_str(), '\0') {
        return Err(KeyError::NameHasNul);
    }
    Ok(trimmed)
}

/// `base` extended by `rest` as a Unix path: an absolute `rest` replaces
/// `base`, otherwise a `/` is put between them when `base` does not end in one.
pub open spec fn path_join(base: Seq<char>, rest: Seq<char>) -> Seq<char> {
    if rest.len() > 0 && rest[0] == '/' {
        rest
    } else if base.len() == 0 || base.last() == '/' {
        base + rest
    } else {
        base + seq!['/'] + rest
    }
}

/// Joins two Unix paths.
pub fn join_path(base: &str, rest: &str) -> (r: String)
    ensures
        r@ == path_join(base@, rest@),
{
    let b = chars_of(base);
    let t = chars_of(rest);
    if t.len() > 0 && t[0] == '/' {
        return owned(rest);
    }
    let mut r = owned(base);
    if !(b.len() == 0 || b[b.len() - 1] == '/') {
        r.append("/");
        proof {
            reveal_strlit("/");
        }
    }
    r.append(rest);
    assert(r@ =~= path_join(base@, rest@));
    r
}

/// The expansion of a path given by the user: trimmed; `~` alone is the home
/// directory and `~/rest` is `rest` inside it.
pub open spec fn home_path(path: Seq<char>, home: Option<Seq<char>>) -> Result<Seq<char>, KeyError> {
    let t = trim(path);
    if t.len() == 0 {
        Err(KeyError::EmptyPath)
    } else if t == seq!['~'] {
        match home {
            Some(h) => Ok(h),
            None => Err(KeyError::NoHomeDirectory),
        }
    } else if t.len() >= 2 && t[0] == '~' && t[1] == '/' {
        match home {
            Some(h) => Ok(path_join(h, t.skip(2))),
            None => Err(KeyError::NoHomeDirectory),
        }
    } else {
        Ok(t)
    }
}

pub open spec fn opt_string_view(o: Option<String>) -> Option<Seq<char>> {
    match o {
        Some(s) => Some(s@),
        None => None,
    }
}

/// Expands `~` in `path` against the home directory `home`.
pub fn expand_home_path_in(path: &str, home: Option<String>) -> (r: Result<String, KeyError>)
    ensures
        result_view(r) == home_path(path@, opt_string_view(home)),
{
    let trimmed = trim_str(path);
    let t = chars_of(trimmed.as_str());
    if t.len() == 0 {
        return Err(KeyError::EmptyPath);
    }
    if t.len() == 1 && t[0] == '~' {
        assert(t@ =~= seq!['~']);
        return match home {
            Some(h) => Ok(h),
            None => Err(KeyError::NoHomeDirectory),
        };
    }
    if t.len() >= 2 && t[0] == '~' && t[1] == '/' {
        assert(t@ != seq!['~']);
        return match home {
            Some(h) => {
                let rest = string_of_range(&t, 2, t.len());
                assert(rest@ =~= t@.skip(2));
                Ok(join_path(h.as_str(), rest.as_str()))
            },
            None => Err(KeyError::NoHomeDirectory),
        };
    }
    assert(t@ != seq!['~']);
    Ok(trimmed)
}

/// The current user's home directory.
/// Trusted: `dirs::home_dir`, which reads the environment (`$HOME`, or the
/// password database), so nothing is stated of its result; the path is
/// handed over as text.
#[verifier::external_body]
fn home_dir() -> (r: Option<String>) {
    match dirs::home_dir() {
        Some(p) => Some(p.to_string_lossy().into_owned()),
        None => None,
    }
}

/// Expands `~` in `path` against the current user's home directory. A path
/// without `~` is only trimmed; the home directory is consulted for `~` and
/// `~/...` alone.
pub fn expand_home_path(path: &str) -> (r: Result<String, KeyError>)
    ensures
        trim(path@).len() == 0 ==> r == Err::<String, KeyError>(KeyError::EmptyPath),
        !(trim(path@).len() == 0 || trim(path@) == seq!['~'] || (trim(path@).len() >= 2
            && trim(path@)[0] == '~' && trim(path@)[1] == '/')) ==> result_view(r) == Ok::<
            Seq<char>,
            KeyError,
        >(trim(path@)),
        exists|home: Option<Seq<char>>| result_view(r) == home_path(path@, home),
{
    let home = home_dir();
    let r = expand_home_path_in(path, home);
    assert(result_view(r) == home_path(path@, opt_string_view(home)));
    r
}

/// The algorithm of a public key line (its first word, `unknown` when there
/// is none) and its comment (the words after the key data, joined by spaces).
pub open spec fn pubkey_metadata(line: Seq<char>) -> (Seq<char>, Seq<char>) {
    let ws = words(line);
    (
        if ws.len() > 0 {
            ws[0]
        } else {
            "unknown"@
        },
        if ws.len() > 2 {
            join(ws.skip(2), seq![' '])
        } else {
            seq![]
        },
    )
}

/// Splits a public key line into its algorithm and comment.
pub fn parse_pubkey_metadata(line: &str) -> (r: (String, String))
    ensures
        (r.0@, r.1@) == pubkey_metadata(line@),
{
    let ws = split_whitespace(line);
    let ghost wv = words(line@);
    let algorithm = if ws.len() > 0 {
        ws[0].clone()
    } else {
        owned("unknown")
    };
    let comment = if ws.len() > 2 {
        let c = join_from(&ws, 2, " ");
        proof {
            reveal_strlit(" ");
            assert(ws@.subrange(2, ws@.len() as int).map_values(|s: String| s@) =~= wv.skip(2));
            assert(" "@ =~= seq![' ']);
        }
        c
    } else {
        String::new()
    };
    proof {
        if ws@.len() <= 2 {
            assert(comment@ =~= Seq::<char>::empty());
        }
    }
    (algorithm, comment)
}

/// A public key text, trimmed; refused when nothing is left.
pub open spec fn public_key_text(raw: Seq<char>) -> Result<Seq<char>, KeyError> {
    if trim(raw).len() == 0 {
        Err(KeyError::EmptyPublicKey)
    } else {
        Ok(trim(raw))
    }
}

/// The public key held by a file's contents, or by `ssh-keygen -y` output.
pub fn read_public_key_text(raw: &str) -> (r: Result<String, KeyError>)
    ensures
        result_view(r) == public_key_text(raw@),
{
    let t = trim_str(raw);
    if t.as_str().is_empty() {
        Err(KeyError::EmptyPublicKey)
    } else {
        Ok(t)
    }
}

/// The fingerprint in `ssh-keygen -l` output: its second word.
pub open spec fn keygen_fingerprint(output: Seq<char>) -> Option<Seq<char>> {
    if words(output).len() > 1 {
        Some(words(output)[1])
    } else {
        None
    }
}

/// Extracts the fingerprint from `ssh-keygen -l` output.
pub fn fingerprint_from_output(output: &str) -> (r: Option<String>)
    ensures
        opt_string_view(r) == keygen_fingerprint(output@),
{
    let ws = split_whitespace(output);
    if ws.len() > 1 {
        Some(ws[1].clone())
    } else {
        None
    }
}

/// The name of an imported key: the name given by the user when it is
/// non-blank (then checked), else the file name of the private key.
pub open spec fn imported_key_name(
    given: Option<Seq<char>>,
    private_file_name: Option<Seq<char>>,
) -> Result<Seq<char>, KeyError> {
    match given {
        Some(n) if trim(n).len() > 0 => key_name_check(trim(n)),
        _ => match private_file_name {
            Some(f) => Ok(f),
            None => Err(KeyError::NoKeyName),
        },
    }
}

/// Chooses the name under which a private key is imported.
pub fn import_key_name(given: Option<&str>, private_file_name: Option<String>) -> (r: Result<
    String,
    KeyError,
>)
    ensures
        result_view(r) == imported_key_name(
            match given {
                Some(g) => Some(g@),
                None => None,
            },
            opt_string_view(private_file_name),
        ),
{
    if let Some(g) = given {
        let t = trim_str(g);
        if !t.as_str().is_empty() {
            return validate_key_name(t.as_str());
        }
    }
    match private_file_name {
        Some(f) => Ok(f),
        None => Err(KeyError::NoKeyName),
    }
}

/// An existing public key file may be kept only when it holds the same key.
pub fn check_existing_public_key(existing: &str, public_key: &str) -> (r: Result<(), KeyError>)
    ensures
        r is Ok <==> trim(existing@) == public_key@,
        r is Err ==> r == Err::<(), KeyError>(KeyError::KeyExists),
{
    let t = trim_str(existing);
    if str_eq(t.as_str(), public_key) {
        Ok(())
    } else {
        Err(KeyError::KeyExists)
    }
}

/// The comment recorded for a generated key: the one given when it is
/// non-blank (trimmed), else the one read back from the public key.
pub open spec fn generated_comment(given: Seq<char>, parsed: Seq<char>) -> Seq<char> {
    if trim(given).len() == 0 {
        parsed
    } else {
        trim(given)
    }
}

pub fn choose_generated_comment(given: &str, parsed: String) -> (r: String)
    ensures
        r@ == generated_comment(given@, parsed@),
{
    let t = trim_str(given);
    if t.as_str().is_empty() {
        parsed
    } else {
        t
    }
}

/// The key found in a public key file, or `None` when the file is blank. The
/// key is named after the file's stem (`unknown` without one); its private
/// key path is given when that file exists; a fingerprint that could not be
/// computed is shown as `-`.
pub open spec fn scanned_key(
    public_key_path: Seq<char>,
    stem: Option<Seq<char>>,
    contents: Seq<char>,
    private_key_path: Option<Seq<char>>,
    fingerprint: Option<Seq<char>>,
) -> Option<LocalKeyView> {
    if trim(contents).len() == 0 {
        None
    } else {
        let meta = pubkey_metadata(trim(contents));
        Some(
            LocalKeyView {
                name: match stem {
                    Some(s) => s,
                    None => "unknown"@,
                },
                algorithm: meta.0,
                comment: meta.1,
                fingerprint: match fingerprint {
                    Some(f) => f,
                    None => "-"@,
                },
                public_key_path,
                private_key_path,
            },
        )
    }
}

pub open spec fn opt_key_view(o: Option<LocalKey>) -> Option<LocalKeyView> {
    match o {
        Some(k) => Some(k@),
        None => None,
    }
}

/// Builds the record of a key found while scanning the SSH directory.
pub fn scan_key_record(
    public_key_path: String,
    stem: Option<String>,
    contents: &str,
    private_key_path: Option<String>,
    fingerprint: Option<String>,
) -> (r: Option<LocalKey>)
    ensures
        opt_key_view(r) == scanned_key(
            public_key_path@,
            opt_string_view(stem),
            contents@,
            opt_string_view(private_key_path),
            opt_string_view(fingerprint),
        ),
{
    let trimmed = trim_str(contents);
    if trimmed.as_str().is_empty() {
        return None;
    }
    let (algorithm, comment) = parse_pubkey_metadata(trimmed.as_str());
    Some(
        LocalKey {
            name: match stem {
                Some(s) => s,
                None => owned("unknown"),
            },
            algorithm,
            comment,
            fingerprint: match fingerprint {
                Some(f) => f,
                None => owned("-"),
            },
            public_key_path,
            private_key_path,
        },
    )
}

/// `a` comes before `b` or equals it in character order.
pub open spec fn text_le(a: Seq<char>, b: Seq<char>) -> bool
    decreases a.len(),
{
    if a.len() == 0 {
        true
    } else if b.len() == 0 {
        false
    } else if a[0] != b[0] {
        (a[0] as u32) < (b[0] as u32)
    } else {
        text_le(a.drop_first(), b.drop_first())
    }
}

/// Character order on texts, as `str::cmp` orders them.
pub fn text_le_exec(a: &str, b: &str) -> (r: bool)
    ensures
        r == text_le(a@, b@),
{
    let va = chars_of(a);
    let vb = chars_of(b);
    let mut i: usize = 0;
    assert(va@.skip(0) =~= va@);
    assert(vb@.skip(0) =~= vb@);
    while i < va.len() && i < vb.len() && va[i] == vb[i]
        invariant
            va@ == a@,
            vb@ == b@,
            i <= va@.len(),
            i <= vb@.len(),
            text_le(a@, b@) == text_le(va@.skip(i as int), vb@.skip(i as int)),
        decreases va@.len() - i,
    {
        assert(va@.skip(i as int).drop_first() =~= va@.skip(i + 1));
        assert(vb@.skip(i as int).drop_first() =~= vb@.skip(i + 1));
        i += 1;
    }
    if i == va.len() {
        true
    } else if i == vb.len() {
        false
    } else {
        (va[i] as u32) < (vb[i] as u32)
    }
}

/// `sorted` with `k` placed after every key whose name is not greater.
pub open spec fn insert_by_name(sorted: Seq<LocalKeyView>, k: LocalKeyView) -> Seq<LocalKeyView>
    decreases sorted.len(),
{
    if sorted.len() == 0 {
        seq![k]
    } else if text_le(sorted.last().name, k.name) {
        sorted.push(k)
    } else {
        insert_by_name(sorted.drop_last(), k).push(sorted.last())
    }
}

/// A stable sort of `keys` by name.
pub open spec fn sorted_by_name(keys: Seq<LocalKeyView>) -> Seq<LocalKeyView>
    decreases keys.len(),
{
    if keys.len() == 0 {
        seq![]
    } else {
        insert_by_name(sorted_by_name(keys.drop_last()), keys.last())
    }
}

pub open spec fn local_keys_view(v: Seq<LocalKey>) -> Seq<LocalKeyView> {
    v.map_values(|k: LocalKey| k@)
}

fn insert_key(sorted: &mut Vec<LocalKey>, k: LocalKey)
    ensures
        local_keys_view(final(sorted)@) == insert_by_name(local_keys_view(old(sorted)@), k@),
{
    let ghost kv = k@;
    let mut tail: Vec<LocalKey> = Vec::new();
    let ghost orig = local_keys_view(sorted@);
    while sorted.len() > 0 && !text_le_exec(sorted[sorted.len() - 1].name.as_str(), k.name.as_str())
        invariant
            kv == k@,
            insert_by_name(orig, kv) == insert_by_name(local_keys_view(sorted@), kv) + local_keys_view(
                tail@,
            ).reverse(),
        decreases sorted@.len(),
    {
        let ghost before = local_keys_view(sorted@);
        let ghost before_tail = local_keys_view(tail@);
        let last = sorted.pop().unwrap();
        proof {
            assert(before.drop_last() =~= local_keys_view(sorted@));
            assert(before.last() == last@);
        }
        tail.push(last);
        assert(local_keys_view(tail@) =~= before_tail.push(last@));
        assert(local_keys_view(tail@).reverse() =~= seq![last@] + before_tail.reverse());
    }
    let ghost mid = local_keys_view(sorted@);
    sorted.push(k);
    assert(local_keys_view(sorted@) =~= mid.push(kv));
    assert(insert_by_name(mid, kv) =~= mid.push(kv));
    while tail.len() > 0
        invariant
            insert_by_name(orig, kv) == local_keys_view(sorted@) + local_keys_view(tail@).reverse(),
        decreases tail@.len(),
    {
        let ghost before = local_keys_view(sorted@);
        let ghost before_tail = local_keys_view(tail@);
        let x = tail.pop().unwrap();
        proof {
            assert(before_tail.drop_last() =~= local_keys_view(tail@));
            assert(before_tail.last() == x@);
            assert(before_tail.reverse() =~= seq![x@] + local_keys_view(tail@).reverse());
        }
        sorted.push(x);
        assert(local_keys_view(sorted@) =~= before.push(x@));
        assert(local_keys_view(sorted@) + local_keys_view(tail@).reverse() =~= before + before_tail.reverse());
    }
    assert(local_keys_view(tail@).reverse() =~= Seq::<LocalKeyView>::empty());
    assert(local_keys_view(sorted@) + Seq::<LocalKeyView>::empty() =~= local_keys_view(sorted@));
}

/// Sorts keys by name; keys with the same name keep their order.
pub fn sort_keys_by_name(keys: Vec<LocalKey>) -> (r: Vec<LocalKey>)
    ensures
        local_keys_view(r@) == sorted_by_name(local_keys_view(keys@)),
{
    let ghost kv = local_keys_view(keys@);
    let mut sorted: Vec<LocalKey> = Vec::new();
    let mut i: usize = 0;
    assert(kv.take(0) =~= Seq::<LocalKeyView>::empty());
    assert(local_keys_view(sorted@) =~= Seq::<LocalKeyView>::empty());
    while i < keys.len()
        invariant
            kv == local_keys_view(keys@),
            i <= keys@.len(),
            local_keys_view(sorted@) == sorted_by_name(kv.take(i as int)),
        decreases keys@.len() - i,
    {
        let x = keys[i].clone();
        proof {
            assert(kv.take(i + 1).drop_last() =~= kv.take(i as int));
            assert(kv.take(i + 1).last() == x@);
        }
        insert_key(&mut sorted, x);
        i += 1;
    }
    assert(kv.take(keys@.len() as int) =~= kv);
    sorted
}

/// Of two texts, one comes before or equals the other.
proof fn lemma_text_le_total(a: Seq<char>, b: Seq<char>)
    ensures
        text_le(a, b) || text_le(b, a),
    decreases a.len(),
{
    if a.len() > 0 && b.len() > 0 {
        if a[0] == b[0] {
            lemma_text_le_total(a.drop_first(), b.drop_first());
        } else {
            vstd::utf8::char_u32_cast(a[0], a[0] as u32);
            vstd::utf8::char_u32_cast(b[0], b[0] as u32);
        }
    }
}

proof fn lemma_text_le_trans(a: Seq<char>, b: Seq<char>, c: Seq<char>)
    requires
        text_le(a, b),
        text_le(b, c),
    ensures
        text_le(a, c),
    decreases a.len(),
{
    if a.len() > 0 && b.len() > 0 && c.len() > 0 && a[0] == b[0] && b[0] == c[0] {
        lemma_text_le_trans(a.drop_first(), b.drop_first(), c.drop_first());
    }
}

/// The keys are in order of name.
pub open spec fn names_in_order(keys: Seq<LocalKeyView>) -> bool {
    forall|i: int, j: int|
        0 <= i < j < keys.len() ==> text_le((#[trigger] keys[i]).name, (#[trigger] keys[j]).name)
}

proof fn lemma_insert_by_name(sorted: Seq<LocalKeyView>, k: LocalKeyView)
    requires
        names_in_order(sorted),
    ensures
        names_in_order(insert_by_name(sorted, k)),
        insert_by_name(sorted, k).to_multiset() == sorted.to_multiset().insert(k),
    decreases sorted.len(),
{
    broadcast use vstd::seq_lib::to_multiset_build, vstd::seq_lib::to_multiset_contains,
        vstd::multiset::group_multiset_axioms;

    let r = insert_by_name(sorted, k);
    if sorted.len() == 0 {
        assert(seq![k] =~= Seq::<LocalKeyView>::empty().push(k));
        assert(sorted =~= Seq::<LocalKeyView>::empty());
    } else if text_le(sorted.last().name, k.name) {
        assert forall|i: int, j: int| 0 <= i < j < r.len() implies text_le(
            (#[trigger] r[i]).name,
            (#[trigger] r[j]).name,
        ) by {
            if j == sorted.len() {
                if i < sorted.len() - 1 {
                    assert(text_le(sorted[i].name, sorted[sorted.len() - 1].name));
                    lemma_text_le_trans(sorted[i].name, sorted.last().name, k.name);
                }
            } else {
                assert(r[i] == sorted[i] && r[j] == sorted[j]);
            }
        }
    } else {
        let p = sorted.drop_last();
        let last = sorted.last();
        assert forall|i: int, j: int| 0 <= i < j < p.len() implies text_le(
            (#[trigger] p[i]).name,
            (#[trigger] p[j]).name,
        ) by {
            assert(p[i] == sorted[i] && p[j] == sorted[j]);
        }
        lemma_insert_by_name(p, k);
        let inner = insert_by_name(p, k);
        lemma_text_le_total(last.name, k.name);
        assert(sorted =~= p.push(last));
        assert forall|i: int| 0 <= i < inner.len() implies text_le(
            (#[trigger] inner[i]).name,
            last.name,
        ) by {
            let x = inner[i];
            assert(inner.to_multiset().count(x) > 0);
            if x != k {
                assert(p.to_multiset().count(x) > 0);
                let m = choose|m: int| 0 <= m < p.len() && p[m] == x;
                assert(sorted[m] == x);
                assert(text_le(sorted[m].name, sorted[sorted.len() - 1].name));
            }
        }
        assert forall|i: int, j: int| 0 <= i < j < r.len() implies text_le(
            (#[trigger] r[i]).name,
            (#[trigger] r[j]).name,
        ) by {
            assert(r[i] == inner[i]);
            if j < inner.len() {
                assert(r[j] == inner[j]);
            }
        }
    }
}

/// Sorting keys by name puts them in order of name and keeps every key,
/// as many times as it occurs.
pub proof fn lemma_sorted_by_name_sorts(keys: Seq<LocalKeyView>)
    ensures
        names_in_order(sorted_by_name(keys)),
        sorted_by_name(keys).to_multiset() == keys.to_multiset(),
    decreases keys.len(),
{
    broadcast use vstd::seq_lib::to_multiset_build, vstd::multiset::group_multiset_axioms;

    if keys.len() == 0 {
        assert(keys =~= Seq::<LocalKeyView>::empty());
        assert(sorted_by_name(keys) =~= Seq::<LocalKeyView>::empty());
    } else {
        lemma_sorted_by_name_sorts(keys.drop_last());
        lemma_insert_by_name(sorted_by_name(keys.drop_last()), keys.last());
        assert(keys =~= keys.drop_last().push(keys.last()));
    }
}

/// An accepted key name is non-empty, has no surrounding whitespace, no path
/// separator and no NUL character, and is accepted again unchanged.
pub proof fn lemma_checked_key_name_is_plain(name: Seq<char>)
    ensures
        key_name_check(name) matches Ok(t) ==> {
            &&& t.len() > 0
            &&& !t.contains('/')
            &&& !t.contains('\\')
            &&& !t.contains('\0')
            &&& trim(t) == t
            &&& key_name_check(t) == Ok::<Seq<char>, KeyError>(t)
        },
{
    lemma_trim_idempotent(name);
}

/// What the scan of the SSH directory reads about one `*.pub` file: its
/// path, its file stem, its contents, the path of the private key beside it
/// when that exists, and the fingerprint `ssh-keygen` gave when it could.
pub struct PubKeyFile {
    pub public_key_path: String,
    pub stem: Option<String>,
    pub contents: String,
    pub private_key_path: Option<String>,
    pub fingerprint: Option<String>,
}

pub struct PubKeyFileView {
    pub public_key_path: Seq<char>,
    pub stem: Option<Seq<char>>,
    pub contents: Seq<char>,
    pub private_key_path: Option<Seq<char>>,
    pub fingerprint: Option<Seq<char>>,
}

impl View for PubKeyFile {
    type V = PubKeyFileView;

    open spec fn view(&self) -> PubKeyFileView {
        PubKeyFileView {
            public_key_path: self.public_key_path@,
            stem: opt_string_view(self.stem),
            contents: self.contents@,
            private_key_path: opt_string_view(self.private_key_path),
            fingerprint: opt_string_view(self.fingerprint),
        }
    }
}

pub open spec fn files_view(v: Seq<PubKeyFile>) -> Seq<PubKeyFileView> {
    v.map_values(|f: PubKeyFile| f@)
}

pub open spec fn scanned_file(f: PubKeyFileView) -> Option<LocalKeyView> {
    scanned_key(f.public_key_path, f.stem, f.contents, f.private_key_path, f.fingerprint)
}

/// The keys that the files hold, in file order: one per file whose contents
/// are not blank.
pub open spec fn scanned_keys(fs: Seq<PubKeyFileView>) -> Seq<LocalKeyView>
    decreases fs.len(),
{
    if fs.len() == 0 {
        seq![]
    } else {
        match scanned_file(fs.last()) {
            Some(k) => scanned_keys(fs.drop_last()).push(k),
            None => scanned_keys(fs.drop_last()),
        }
    }
}

/// The local keys found in the scanned `*.pub` files: one per file with
/// non-blank contents, sorted by name (files whose keys share a name keep
/// their order).
pub fn local_keys_from_files(files: &[PubKeyFile]) -> (r: Vec<LocalKey>)
    ensures
        local_keys_view(r@) == sorted_by_name(scanned_keys(files_view(files@))),
        names_in_order(local_keys_view(r@)),
        local_keys_view(r@).to_multiset() == scanned_keys(files_view(files@)).to_multiset(),
{
    let ghost fv = files_view(files@);
    let mut found: Vec<LocalKey> = Vec::new();
    let mut i: usize = 0;
    assert(fv.take(0) =~= Seq::<PubKeyFileView>::empty());
    assert(local_keys_view(found@) =~= Seq::<LocalKeyView>::empty());
    while i < files.len()
        invariant
            fv == files_view(files@),
            i <= files@.len(),
            local_keys_view(found@) == scanned_keys(fv.take(i as int)),
        decreases files@.len() - i,
    {
        let f = &files[i];
        assert(fv[i as int] == f@);
        assert(fv.take(i + 1).drop_last() =~= fv.take(i as int));
        let ghost before = local_keys_view(found@);
        match scan_key_record(
            f.public_key_path.clone(),
            clone_opt_string(&f.stem),
            f.contents.as_str(),
            clone_opt_string(&f.private_key_path),
            clone_opt_string(&f.fingerprint),
        ) {
            Some(k) => {
                found.push(k);
                assert(local_keys_view(found@) =~= before.push(found@.last()@));
            },
            None => {},
        }
        i += 1;
    }
    assert(fv.take(files@.len() as int) =~= fv);
    let r = sort_keys_by_name(found);
    proof {
        lemma_sorted_by_name_sorts(scanned_keys(fv));
    }
    r
}

} // verus!
