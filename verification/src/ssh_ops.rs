//! Decisions around remote SSH work: how to authenticate, the shell commands
//! that install and list authorized keys, and what a command's result means.
use vstd::prelude::*;

use crate::keys::{expand_home_path, home_path, result_view, KeyError};
use crate::models::{endpoint_of, AuthMethod, CommandResult, TargetProfile, clone_opt_string};
use crate::text::{
    i32_to_decimal, lines, owned, push_char, signed_decimal, split_lines, trim, trim_str,
};

verus! {

/// Why a remote operation failed after the command ran.
#[derive(Debug)]
pub enum SshOpError {
    /// The session was set up but is not authenticated.
    NotAuthenticated { endpoint: String },
    /// The key installation command exited with a non-zero status.
    ExchangeFailed { endpoint: String, exit_status: i32, stderr: String },
    /// Reading `authorized_keys` exited with a non-zero status.
    FetchFailed { endpoint: String, exit_status: i32, stderr: String },
    /// The server's host key differs from the one recorded in `known_hosts`.
    HostKeyMismatch { endpoint: String },
    /// The server's host key could not be checked against `known_hosts`.
    HostKeyUnverified { endpoint: String },
}

/// What looking up the server's host key in `~/.ssh/known_hosts` found.
#[derive(Clone, Copy, Debug, PartialEq, Eq, Structural)]
pub enum HostKeyCheck {
    /// The host is recorded with this key.
    Match,
    /// The host is not recorded.
    NotFound,
    /// The host is recorded with another key.
    Mismatch,
    /// The check could not be made.
    Failure,
}

/// The explanation of a failed operation shown to the user.
pub open spec fn op_error_text(e: SshOpError) -> Seq<char> {
    match e {
        SshOpError::NotAuthenticated { endpoint } => "session established but authentication state is false for "@
            + endpoint@,
        SshOpError::ExchangeFailed { endpoint, exit_status, stderr } => "failed exchanging key on "@
            + endpoint@ + " (exit="@ + signed_decimal(exit_status as int) + "): "@ + stderr@,
        SshOpError::FetchFailed { endpoint, exit_status, stderr } => "failed reading remote authorized_keys on "@
            + endpoint@ + " (exit="@ + signed_decimal(exit_status as int) + "): "@ + stderr@,
        SshOpError::HostKeyMismatch { endpoint } => "host key mismatch for "@ + endpoint@
            + ": it differs from the key in ~/.ssh/known_hosts (possible MITM attack); connection aborted"@,
        SshOpError::HostKeyUnverified { endpoint } => "could not verify the host key of "@ + endpoint@
            + " against ~/.ssh/known_hosts; connection aborted"@,
    }
}

impl SshOpError {
    /// The explanation shown to the user.
    pub fn to_text(&self) -> (r: String)
        ensures
            r@ == op_error_text(*self),
    {
        match self {
            SshOpError::NotAuthenticated { endpoint } => {
                let mut r = owned("session established but authentication state is false for ");
                r.append(endpoint.as_str());
                r
            },
            SshOpError::ExchangeFailed { endpoint, exit_status, stderr } => {
                let mut r = owned("failed exchanging key on ");
                r.append(endpoint.as_str());
                r.append(" (exit=");
                let code = i32_to_decimal(*exit_status);
                r.append(code.as_str());
                r.append("): ");
                r.append(stderr.as_str());
                r
            },
            SshOpError::FetchFailed { endpoint, exit_status, stderr } => {
                let mut r = owned("failed reading remote authorized_keys on ");
                r.append(endpoint.as_str());
                r.append(" (exit=");
                let code = i32_to_decimal(*exit_status);
                r.append(code.as_str());
                r.append("): ");
                r.append(stderr.as_str());
                r
            },
            SshOpError::HostKeyMismatch { endpoint } => {
                let mut r = owned("host key mismatch for ");
                r.append(endpoint.as_str());
                r.append(
                    ": it differs from the key in ~/.ssh/known_hosts (possible MITM attack); connection aborted",
                );
                r
            },
            SshOpError::HostKeyUnverified { endpoint } => {
                let mut r = owned("could not verify the host key of ");
                r.append(endpoint.as_str());
                r.append(" against ~/.ssh/known_hosts; connection aborted");
                r
            },
        }
    }
}

/// How a session authenticates: the user name and the credential to offer.
#[derive(Debug)]
pub enum AuthPlan {
    Password { user: String, password: String },
    KeyFile { user: String, private_key_path: String, passphrase: Option<String> },
}

/// The text that stands for one character of a single-quoted shell word: a
/// quote closes the quoted text, adds a double-quoted quote, and reopens it.
pub open spec fn quote_piece(c: char) -> Seq<char> {
    if c == '\'' {
        seq!['\'', '"', '\'', '"', '\'']
    } else {
        seq![c]
    }
}

pub open spec fn escape_quotes(s: Seq<char>) -> Seq<char>
    decreases s.len(),
{
    if s.len() == 0 {
        seq![]
    } else {
        quote_piece(s[0]) + escape_quotes(s.drop_first())
    }
}

/// `s` as one single-quoted shell word.
pub open spec fn shell_quoted(s: Seq<char>) -> Seq<char> {
    if s.len() == 0 {
        seq!['\'', '\'']
    } else {
        seq!['\''] + escape_quotes(s) + seq!['\'']
    }
}

proof fn lemma_escape_push(s: Seq<char>, c: char)
    ensures
        escape_quotes(s.push(c)) == escape_quotes(s) + quote_piece(c),
    decreases s.len(),
{
    if s.len() == 0 {
        assert(s.push(c).drop_first() =~= Seq::<char>::empty());
        assert(escape_quotes(s.push(c).drop_first()) == Seq::<char>::empty());
        assert(escape_quotes(s.push(c)) =~= quote_piece(c));
    } else {
        lemma_escape_push(s.drop_first(), c);
        assert(s.push(c).drop_first() =~= s.drop_first().push(c));
        assert(escape_quotes(s.push(c)) =~= escape_quotes(s) + quote_piece(c));
    }
}

/// Where a POSIX shell is while it reads a word: outside quotes, inside
/// single quotes, or inside double quotes.
pub enum QuoteState {
    Bare,
    Single,
    Double,
}

pub open spec fn prepend(front: Seq<char>, rest: Option<Seq<char>>) -> Option<Seq<char>> {
    match rest {
        Some(r) => Some(front + r),
        None => None,
    }
}

/// The text that a POSIX shell reads from `w`, a word made of quoted parts
/// only, in state `st`: inside single quotes every character but `'` stands
/// for itself; inside double quotes so does every character but `"`, `$`,
/// `` ` `` and `\`. `None` when `w` is not such a word: it holds a character
/// outside quotes, a double-quoted character with a special meaning, or an
/// unclosed quote.
pub open spec fn shell_read(w: Seq<char>, st: QuoteState) -> Option<Seq<char>>
    decreases w.len(),
{
    if w.len() == 0 {
        match st {
            QuoteState::Bare => Some(seq![]),
            _ => None,
        }
    } else {
        let c = w[0];
        let rest = w.drop_first();
        match st {
            QuoteState::Bare => if c == '\'' {
                shell_read(rest, QuoteState::Single)
            } else if c == '"' {
                shell_read(rest, QuoteState::Double)
            } else {
                None
            },
            QuoteState::Single => if c == '\'' {
                shell_read(rest, QuoteState::Bare)
            } else {
                prepend(seq![c], shell_read(rest, QuoteState::Single))
            },
            QuoteState::Double => if c == '"' {
                shell_read(rest, QuoteState::Bare)
            } else if c == '$' || c == '`' || c == '\\' {
                None
            } else {
                prepend(seq![c], shell_read(rest, QuoteState::Double))
            },
        }
    }
}

proof fn lemma_prepend_twice(a: Seq<char>, b: Seq<char>, r: Option<Seq<char>>)
    ensures
        prepend(a, prepend(b, r)) == prepend(a + b, r),
{
    match r {
        Some(x) => assert(a + (b + x) =~= (a + b) + x),
        None => {},
    }
}

proof fn lemma_shell_read_escaped(s: Seq<char>, tail: Seq<char>)
    ensures
        shell_read(escape_quotes(s) + tail, QuoteState::Single) == prepend(
            s,
            shell_read(tail, QuoteState::Single),
        ),
    decreases s.len(),
{
    if s.len() == 0 {
        assert(escape_quotes(s) + tail =~= tail);
        match shell_read(tail, QuoteState::Single) {
            Some(r) => assert(s + r =~= r),
            None => {},
        }
    } else {
        let c = s[0];
        let rest = s.drop_first();
        lemma_shell_read_escaped(rest, tail);
        let x = escape_quotes(rest) + tail;
        assert(escape_quotes(s) + tail =~= quote_piece(c) + x);
        let w = quote_piece(c) + x;
        if c == '\'' {
            let w1 = w.drop_first();
            let w2 = w1.drop_first();
            let w3 = w2.drop_first();
            let w4 = w3.drop_first();
            assert(w1 =~= seq!['"', '\'', '"', '\''] + x);
            assert(w2 =~= seq!['\'', '"', '\''] + x);
            assert(w3 =~= seq!['"', '\''] + x);
            assert(w4 =~= seq!['\''] + x);
            assert(w4.drop_first() =~= x);
            assert(shell_read(w4, QuoteState::Bare) == shell_read(x, QuoteState::Single));
            assert(shell_read(w3, QuoteState::Double) == shell_read(w4, QuoteState::Bare));
            assert(shell_read(w2, QuoteState::Double) == prepend(
                seq![c],
                shell_read(w3, QuoteState::Double),
            ));
            assert(shell_read(w1, QuoteState::Bare) == shell_read(w2, QuoteState::Double));
            assert(shell_read(w, QuoteState::Single) == shell_read(w1, QuoteState::Bare));
        } else {
            assert(w.drop_first() =~= x);
            assert(shell_read(w, QuoteState::Single) == prepend(
                seq![c],
                shell_read(x, QuoteState::Single),
            ));
        }
        lemma_prepend_twice(seq![c], rest, shell_read(tail, QuoteState::Single));
        assert(seq![c] + rest =~= s);
    }
}

/// A POSIX shell reads the quoted word back as exactly the original text,
/// whatever characters it holds: quoting cannot be broken out of.
pub proof fn lemma_shell_quoted_reads_back(s: Seq<char>)
    ensures
        shell_read(shell_quoted(s), QuoteState::Bare) == Some(s),
{
    let q = shell_quoted(s);
    let none = Seq::<char>::empty();
    assert(shell_read(none, QuoteState::Bare) == Some(none));
    if s.len() == 0 {
        assert(q.drop_first() =~= seq!['\'']);
        assert(q.drop_first().drop_first() =~= none);
        assert(shell_read(q.drop_first(), QuoteState::Single) == shell_read(none, QuoteState::Bare));
        assert(s =~= none);
    } else {
        let tail = seq!['\''];
        lemma_shell_read_escaped(s, tail);
        assert(q.drop_first() =~= escape_quotes(s) + tail);
        assert(tail.drop_first() =~= none);
        assert(shell_read(tail, QuoteState::Single) == shell_read(none, QuoteState::Bare));
        assert(s + none =~= s);
    }
}

/// Quotes `input` as a single shell word.
pub fn shell_escape_single(input: &str) -> (r: String)
    ensures
        r@ == shell_quoted(input@),
{
    let v = crate::text::chars_of(input);
    if v.len() == 0 {
        let r = crate::text::owned("''");
        proof {
            reveal_strlit("''");
        }
        assert(r@ =~= shell_quoted(input@));
        return r;
    }
    let mut r = String::new();
    push_char(&mut r, '\'');
    let mut i: usize = 0;
    assert(v@.take(0) =~= Seq::<char>::empty());
    while i < v.len()
        invariant
            v@ == input@,
            i <= v@.len(),
            r@ == seq!['\''] + escape_quotes(v@.take(i as int)),
        decreases v@.len() - i,
    {
        let c = v[i];
        proof {
            assert(v@.take(i + 1) =~= v@.take(i as int).push(c));
            lemma_escape_push(v@.take(i as int), c);
        }
        if c == '\'' {
            push_char(&mut r, '\'');
            push_char(&mut r, '"');
            push_char(&mut r, '\'');
            push_char(&mut r, '"');
            push_char(&mut r, '\'');
        } else {
            push_char(&mut r, c);
        }
        i += 1;
        assert(r@ =~= seq!['\''] + escape_quotes(v@.take(i as int)));
    }
    push_char(&mut r, '\'');
    assert(v@.take(v@.len() as int) =~= v@);
    assert(r@ =~= shell_quoted(input@));
    r
}

/// The command that installs `public_key` into the remote `authorized_keys`
/// with owner-only permissions, unless the exact line is already there.
pub open spec fn exchange_command(public_key: Seq<char>) -> Seq<char> {
    "umask 077; mkdir -p ~/.ssh; chmod 700 ~/.ssh; touch ~/.ssh/authorized_keys; chmod 600 ~/.ssh/authorized_keys; grep -qxF "@
        + shell_quoted(public_key) + " ~/.ssh/authorized_keys || echo "@ + shell_quoted(public_key)
        + " >> ~/.ssh/authorized_keys"@
}

/// The key-exchange command only appends: it ends by echoing the key, quoted
/// so that the shell reads back exactly the key, onto the end of
/// `~/.ssh/authorized_keys` with `>>`, so the lines already there are kept.
pub proof fn lemma_exchange_command_only_appends(public_key: Seq<char>)
    ensures
        exists|prefix: Seq<char>|
            exchange_command(public_key) == prefix + " || echo "@ + shell_quoted(public_key)
                + " >> ~/.ssh/authorized_keys"@,
        shell_read(shell_quoted(public_key), QuoteState::Bare) == Some(public_key),
{
    let prefix = "umask 077; mkdir -p ~/.ssh; chmod 700 ~/.ssh; touch ~/.ssh/authorized_keys; chmod 600 ~/.ssh/authorized_keys; grep -qxF "@
        + shell_quoted(public_key) + " ~/.ssh/authorized_keys"@;
    reveal_strlit(" ~/.ssh/authorized_keys || echo ");
    reveal_strlit(" ~/.ssh/authorized_keys");
    reveal_strlit(" || echo ");
    assert(" ~/.ssh/authorized_keys || echo "@ =~= " ~/.ssh/authorized_keys"@ + " || echo "@);
    assert(exchange_command(public_key) =~= prefix + " || echo "@ + shell_quoted(public_key)
        + " >> ~/.ssh/authorized_keys"@);
    lemma_shell_quoted_reads_back(public_key);
}

pub fn build_exchange_command(public_key: &str) -> (r: String)
    ensures
        r@ == exchange_command(public_key@),
{
    let escaped = shell_escape_single(public_key);
    let mut r = crate::text::owned(
        "umask 077; mkdir -p ~/.ssh; chmod 700 ~/.ssh; touch ~/.ssh/authorized_keys; chmod 600 ~/.ssh/authorized_keys; grep -qxF ",
    );
    r.append(escaped.as_str());
    r.append(" ~/.ssh/authorized_keys || echo ");
    r.append(escaped.as_str());
    r.append(" >> ~/.ssh/authorized_keys");
    r
}

pub open spec fn fetch_command() -> Seq<char> {
    "if [ -f ~/.ssh/authorized_keys ]; then cat ~/.ssh/authorized_keys; fi"@
}

/// The command that prints the remote `authorized_keys`, if there is one.
pub fn fetch_authorized_keys_command() -> (r: &'static str)
    ensures
        r@ == fetch_command(),
{
    "if [ -f ~/.ssh/authorized_keys ]; then cat ~/.ssh/authorized_keys; fi"
}

/// The non-blank lines of `ls`, trimmed.
pub open spec fn nonblank_trimmed(ls: Seq<Seq<char>>) -> Seq<Seq<char>>
    decreases ls.len(),
{
    if ls.len() == 0 {
        seq![]
    } else {
        let rest = nonblank_trimmed(ls.drop_last());
        if trim(ls.last()).len() > 0 {
            rest.push(trim(ls.last()))
        } else {
            rest
        }
    }
}

pub open spec fn strings_view(v: Seq<String>) -> Seq<Seq<char>> {
    v.map_values(|s: String| s@)
}

/// The keys listed in the output of the fetch command: its non-blank lines, trimmed.
pub fn authorized_keys_from_output(stdout: &str) -> (r: Vec<String>)
    ensures
        strings_view(r@) == nonblank_trimmed(lines(stdout@)),
{
    let ls = split_lines(stdout);
    let ghost lv = lines(stdout@);
    let mut keys: Vec<String> = Vec::new();
    let mut i: usize = 0;
    assert(lv.take(0) =~= Seq::<Seq<char>>::empty());
    assert(strings_view(keys@) =~= Seq::<Seq<char>>::empty());
    while i < ls.len()
        invariant
            lv == lines(stdout@),
            ls@.len() == lv.len(),
            forall|k: int| 0 <= k < ls@.len() ==> #[trigger] ls@[k]@ == lv[k],
            i <= ls@.len(),
            strings_view(keys@) == nonblank_trimmed(lv.take(i as int)),
        decreases ls@.len() - i,
    {
        proof {
            assert(lv.take(i + 1).drop_last() =~= lv.take(i as int));
            assert(lv.take(i + 1).last() == ls@[i as int]@);
        }
        let t = trim_str(ls[i].as_str());
        if !t.as_str().is_empty() {
            let ghost before = strings_view(keys@);
            keys.push(t);
            assert(strings_view(keys@) =~= before.push(t@));
        }
        i += 1;
    }
    assert(lv.take(ls@.len() as int) =~= lv);
    keys
}

/// Whether a session with `profile` may go on after its host key was looked
/// up in `known_hosts`: a recorded matching key or an unrecorded host lets
/// it go on; a different recorded key, or a check that could not be made,
/// stops it.
pub fn check_host_key(profile: &TargetProfile, check: HostKeyCheck) -> (r: Result<(), SshOpError>)
    ensures
        (check == HostKeyCheck::Match || check == HostKeyCheck::NotFound) ==> r is Ok,
        check == HostKeyCheck::Mismatch ==> (r matches Err(SshOpError::HostKeyMismatch { endpoint })
            && endpoint@ == endpoint_of(profile.host@, profile.port)),
        check == HostKeyCheck::Failure ==> (r matches Err(SshOpError::HostKeyUnverified { endpoint })
            && endpoint@ == endpoint_of(profile.host@, profile.port)),
{
    match check {
        HostKeyCheck::Match | HostKeyCheck::NotFound => Ok(()),
        HostKeyCheck::Mismatch => Err(SshOpError::HostKeyMismatch { endpoint: profile.endpoint() }),
        HostKeyCheck::Failure => Err(SshOpError::HostKeyUnverified { endpoint: profile.endpoint() }),
    }
}

/// A connection test succeeds when the session is authenticated.
pub fn test_connection(profile: &TargetProfile, authenticated: bool) -> (r: Result<(), SshOpError>)
    ensures
        authenticated ==> r is Ok,
        !authenticated ==> (r matches Err(SshOpError::NotAuthenticated { endpoint }) && endpoint@
            == endpoint_of(profile.host@, profile.port)),
{
    if !authenticated {
        return Err(SshOpError::NotAuthenticated { endpoint: profile.endpoint() });
    }
    Ok(())
}

/// The outcome of installing a key with the command of
/// `build_exchange_command`, from that command's result.
pub fn exchange_public_key(profile: &TargetProfile, result: &CommandResult) -> (r: Result<
    (),
    SshOpError,
>)
    ensures
        result.exit_status == 0 ==> r is Ok,
        result.exit_status != 0 ==> (r matches Err(
            SshOpError::ExchangeFailed { endpoint, exit_status, stderr },
        ) && endpoint@ == endpoint_of(profile.host@, profile.port) && exit_status
            == result.exit_status && stderr@ == trim(result.stderr@)),
{
    if result.exit_status != 0 {
        return Err(
            SshOpError::ExchangeFailed {
                endpoint: profile.endpoint(),
                exit_status: result.exit_status,
                stderr: trim_str(result.stderr.as_str()),
            },
        );
    }
    Ok(())
}

/// The keys of the remote `authorized_keys`, from the result of the command
/// of `fetch_authorized_keys_command`.
pub fn fetch_remote_authorized_keys(profile: &TargetProfile, result: &CommandResult) -> (r: Result<
    Vec<String>,
    SshOpError,
>)
    ensures
        result.exit_status == 0 ==> (r matches Ok(keys) && strings_view(keys@) == nonblank_trimmed(
            lines(result.stdout@),
        )),
        result.exit_status != 0 ==> (r matches Err(
            SshOpError::FetchFailed { endpoint, exit_status, stderr },
        ) && endpoint@ == endpoint_of(profile.host@, profile.port) && exit_status
            == result.exit_status && stderr@ == trim(result.stderr@)),
{
    if result.exit_status != 0 {
        return Err(
            SshOpError::FetchFailed {
                endpoint: profile.endpoint(),
                exit_status: result.exit_status,
                stderr: trim_str(result.stderr.as_str()),
            },
        );
    }
    Ok(authorized_keys_from_output(result.stdout.as_str()))
}

/// The credentials a session offers for `profile`, where a key file path is
/// expanded against the home directory `home`.
pub open spec fn auth_plan_for(
    user: Seq<char>,
    auth: crate::models::AuthView,
    home: Option<Seq<char>>,
) -> Result<(Seq<char>, crate::models::AuthView), KeyError> {
    match auth {
        crate::models::AuthView::Password { password } => Ok(
            (user, crate::models::AuthView::Password { password }),
        ),
        crate::models::AuthView::KeyFile { private_key, passphrase } => match home_path(
            private_key,
            home,
        ) {
            Ok(p) => Ok(
                (user, crate::models::AuthView::KeyFile { private_key: p, passphrase }),
            ),
            Err(e) => Err(e),
        },
    }
}

pub open spec fn plan_view(p: AuthPlan) -> (Seq<char>, crate::models::AuthView) {
    match p {
        AuthPlan::Password { user, password } => (
            user@,
            crate::models::AuthView::Password { password: password@ },
        ),
        AuthPlan::KeyFile { user, private_key_path, passphrase } => (
            user@,
            crate::models::AuthView::KeyFile {
                private_key: private_key_path@,
                passphrase: crate::models::opt_view(passphrase),
            },
        ),
    }
}

pub open spec fn plan_result_view(r: Result<AuthPlan, KeyError>) -> Result<
    (Seq<char>, crate::models::AuthView),
    KeyError,
> {
    match r {
        Ok(p) => Ok(plan_view(p)),
        Err(e) => Err(e),
    }
}

/// Chooses how a session for `profile` authenticates: by password, or with
/// the profile's private key file after `~` expansion.
pub fn auth_plan(profile: &TargetProfile) -> (r: Result<AuthPlan, KeyError>)
    ensures
        exists|home: Option<Seq<char>>|
            #[trigger] auth_plan_for(profile.user@, profile.auth@, home) == plan_result_view(r),
{
    match &profile.auth {
        AuthMethod::Password { password } => {
            let p = AuthPlan::Password { user: profile.user.clone(), password: password.clone() };
            assert(auth_plan_for(profile.user@, profile.auth@, None) == Ok::<
                (Seq<char>, crate::models::AuthView),
                KeyError,
            >(plan_view(p)));
            Ok(p)
        },
        AuthMethod::KeyFile { private_key, passphrase } => {
            let expanded = expand_home_path(private_key.as_str());
            let ghost home = choose|home: Option<Seq<char>>|
                result_view(expanded) == home_path(private_key@, home);
            match expanded {
                Ok(path) => {
                    let p = AuthPlan::KeyFile {
                        user: profile.user.clone(),
                        private_key_path: path,
                        passphrase: clone_opt_string(passphrase),
                    };
                    assert(auth_plan_for(profile.user@, profile.auth@, home) == Ok::<
                        (Seq<char>, crate::models::AuthView),
                        KeyError,
                    >(plan_view(p)));
                    Ok(p)
                },
                Err(e) => {
                    assert(auth_plan_for(profile.user@, profile.auth@, home) == Err::<
                        (Seq<char>, crate::models::AuthView),
                        KeyError,
                    >(e));
                    Err(e)
                },
            }
        },
    }
}

} // verus!
