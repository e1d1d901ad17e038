//! Rules of the command line: building a target from flags and printing a
//! target as an `ssh` command.
use vstd::prelude::*;

use crate::models::{AuthMethod, AuthView, TargetProfile, TargetView, opt_view};
use crate::storage::stored_target;
use crate::text::{
    decimal, join, lemma_decimal_reads_back, owned, parse_u16, push_char, push_decimal, trim,
    trim_str,
};

verus! {

/// Why a target could not be built from command line flags.
#[derive(Debug, PartialEq, Eq, Structural)]
pub enum ProfileError {
    EmptyHost,
    EmptyUser,
    EmptyPassword,
    EmptyKeyFile,
    /// Neither or both of a password and a key file were given.
    AuthRequired,
}

impl ProfileError {
    pub open spec fn spec_message(self) -> Seq<char> {
        match self {
            ProfileError::EmptyHost => "host cannot be empty"@,
            ProfileError::EmptyUser => "user cannot be empty"@,
            ProfileError::EmptyPassword => "password cannot be empty"@,
            ProfileError::EmptyKeyFile => "key-file cannot be empty"@,
            ProfileError::AuthRequired => "authentication required: use exactly one of --password or --key-file"@,
        }
    }

    /// The explanation shown to the user.
    pub fn message(&self) -> (r: &'static str)
        ensures
            r@ == self.spec_message(),
    {
        match self {
            ProfileError::EmptyHost => "host cannot be empty",
            ProfileError::EmptyUser => "user cannot be empty",
            ProfileError::EmptyPassword => "password cannot be empty",
            ProfileError::EmptyKeyFile => "key-file cannot be empty",
            ProfileError::AuthRequired => "authentication required: use exactly one of --password or --key-file",
        }
    }
}

/// The target described by command line flags: host and user are trimmed
/// and must not be empty; exactly one of a non-empty password and a
/// non-blank key file (trimmed) is required; an empty passphrase counts as
/// none. The target is named `user@host:port`.
pub open spec fn profile_from_flags(
    host: Seq<char>,
    port: u16,
    user: Seq<char>,
    password: Option<Seq<char>>,
    key_file: Option<Seq<char>>,
    passphrase: Option<Seq<char>>,
) -> Result<TargetView, ProfileError> {
    let h = trim(host);
    let u = trim(user);
    if h.len() == 0 {
        Err(ProfileError::EmptyHost)
    } else if u.len() == 0 {
        Err(ProfileError::EmptyUser)
    } else {
        let auth = match (password, key_file) {
            (Some(p), None) => if p.len() == 0 {
                Err(ProfileError::EmptyPassword)
            } else {
                Ok(AuthView::Password { password: p })
            },
            (None, Some(k)) => if trim(k).len() == 0 {
                Err(ProfileError::EmptyKeyFile)
            } else {
                Ok(
                    AuthView::KeyFile {
                        private_key: trim(k),
                        passphrase: match passphrase {
                            Some(pp) => if pp.len() == 0 {
                                None
                            } else {
                                Some(pp)
                            },
                            None => None,
                        },
                    },
                )
            },
            _ => Err(ProfileError::AuthRequired),
        };
        match auth {
            Ok(a) => Ok(
                TargetView {
                    name: u + seq!['@'] + h + seq![':'] + decimal(port as nat),
                    host: h,
                    port,
                    user: u,
                    auth: a,
                },
            ),
            Err(e) => Err(e),
        }
    }
}

pub open spec fn profile_result_view(r: Result<TargetProfile, ProfileError>) -> Result<
    TargetView,
    ProfileError,
> {
    match r {
        Ok(t) => Ok(t@),
        Err(e) => Err(e),
    }
}

/// Builds a target from the command line flags.
pub fn build_profile(
    host: String,
    port: u16,
    user: String,
    password: Option<String>,
    key_file: Option<String>,
    passphrase: Option<String>,
) -> (r: Result<TargetProfile, ProfileError>)
    ensures
        profile_result_view(r) == profile_from_flags(
            host@,
            port,
            user@,
            opt_view(password),
            opt_view(key_file),
            opt_view(passphrase),
        ),
{
    let host = trim_str(host.as_str());
    if host.as_str().is_empty() {
        return Err(ProfileError::EmptyHost);
    }
    let user = trim_str(user.as_str());
    if user.as_str().is_empty() {
        return Err(ProfileError::EmptyUser);
    }
    let auth = match (password, key_file) {
        (Some(password), None) => {
            if password.as_str().is_empty() {
                return Err(ProfileError::EmptyPassword);
            }
            AuthMethod::Password { password }
        },
        (None, Some(private_key)) => {
            let private_key = trim_str(private_key.as_str());
            if private_key.as_str().is_empty() {
                return Err(ProfileError::EmptyKeyFile);
            }
            let passphrase = match passphrase {
                Some(p) => if p.as_str().is_empty() {
                    None
                } else {
                    Some(p)
                },
                None => None,
            };
            AuthMethod::KeyFile { private_key, passphrase }
        },
        _ => {
            return Err(ProfileError::AuthRequired);
        },
    };
    let mut name = user.clone();
    push_char(&mut name, '@');
    name.append(host.as_str());
    push_char(&mut name, ':');
    push_decimal(&mut name, port as u64);
    let r = TargetProfile { name, host, port, user, auth };
    assert(r@.name =~= r@.user + seq!['@'] + r@.host + seq![':'] + decimal(port as nat));
    Ok(r)
}

/// A target is built from flags only with exactly one credential, a
/// password or a key file; given non-blank host and user, naming both or
/// neither is refused as such. A built target has a trimmed, non-empty host
/// and user.
pub proof fn lemma_profile_needs_one_credential(
    host: Seq<char>,
    port: u16,
    user: Seq<char>,
    password: Option<Seq<char>>,
    key_file: Option<Seq<char>>,
    passphrase: Option<Seq<char>>,
)
    ensures
        profile_from_flags(host, port, user, password, key_file, passphrase) matches Ok(t) ==> {
            &&& (password is Some) != (key_file is Some)
            &&& t.host == trim(host) && t.host.len() > 0
            &&& t.user == trim(user) && t.user.len() > 0
        },
        trim(host).len() > 0 && trim(user).len() > 0 && (password is Some) == (key_file is Some)
            ==> profile_from_flags(host, port, user, password, key_file, passphrase) == Err::<
            TargetView,
            ProfileError,
        >(ProfileError::AuthRequired),
{
}

/// The words of the `ssh` command for a target: `ssh -i KEY` for key-file
/// auth, a comment line then `ssh` for password auth, `-p PORT` when the
/// port is not 22, then `user@host`.
pub open spec fn ssh_command_parts(t: TargetView) -> Seq<Seq<char>> {
    let head = match t.auth {
        AuthView::KeyFile { private_key, .. } => seq!["ssh"@, "-i"@, private_key],
        AuthView::Password { .. } => seq![
            "# (password auth \u{2014} enter password when prompted)\n"@,
            "ssh"@,
        ],
    };
    let with_port = if t.port != 22 {
        head + seq!["-p"@, decimal(t.port as nat)]
    } else {
        head
    };
    with_port.push(t.user + seq!['@'] + t.host)
}

/// The `ssh` command of a target written out: `ssh -i KEY [-p PORT]
/// user@host` for key-file auth; for password auth a comment line, then
/// ` ssh [-p PORT] user@host`.
pub open spec fn ssh_command_text(t: TargetView) -> Seq<char> {
    let pp = if t.port != 22 {
        " -p "@ + decimal(t.port as nat)
    } else {
        seq![]
    };
    let dest = t.user + seq!['@'] + t.host;
    match t.auth {
        AuthView::KeyFile { private_key, .. } => "ssh -i "@ + private_key + pp + " "@ + dest,
        AuthView::Password { .. } => "# (password auth \u{2014} enter password when prompted)\n"@
            + " ssh"@ + pp + " "@ + dest,
    }
}

/// The words of the command, joined by spaces, are the command written out.
pub proof fn lemma_ssh_command_text(t: TargetView)
    ensures
        ssh_command(t) == ssh_command_text(t),
{
    reveal_with_fuel(join, 7);
    reveal_strlit("ssh");
    reveal_strlit("-i");
    reveal_strlit("-p");
    reveal_strlit(" -p ");
    reveal_strlit("ssh -i ");
    reveal_strlit(" ssh");
    reveal_strlit(" ");
    reveal_strlit("# (password auth \u{2014} enter password when prompted)\n");
    let parts = ssh_command_parts(t);
    let sp = seq![' '];
    let dest = t.user + seq!['@'] + t.host;
    match t.auth {
        AuthView::KeyFile { private_key, .. } => {
            if t.port != 22 {
                assert(join(parts, sp) =~= ssh_command_text(t));
            } else {
                assert(join(parts, sp) =~= ssh_command_text(t));
            }
        },
        AuthView::Password { .. } => {
            if t.port != 22 {
                assert(join(parts, sp) =~= ssh_command_text(t));
            } else {
                assert(join(parts, sp) =~= ssh_command_text(t));
            }
        },
    }
}

/// A target as a runnable `ssh` command line.
pub open spec fn ssh_command(t: TargetView) -> Seq<char> {
    join(ssh_command_parts(t), seq![' '])
}

/// Formats a target as a runnable `ssh` command.
pub fn format_ssh_command(profile: &TargetProfile) -> (r: String)
    ensures
        r@ == ssh_command(profile@),
        r@ == ssh_command_text(profile@),
{
    let ghost t = profile@;
    let mut parts: Vec<String> = Vec::new();
    let ghost mut pv: Seq<Seq<char>> = seq![];
    match &profile.auth {
        AuthMethod::KeyFile { private_key, .. } => {
            let a = owned("ssh");
            let b = owned("-i");
            let c = private_key.clone();
            proof { pv = seq![a@, b@, c@]; }
            parts.push(a);
            parts.push(b);
            parts.push(c);
        },
        AuthMethod::Password { .. } => {
            let a = owned("# (password auth \u{2014} enter password when prompted)\n");
            let b = owned("ssh");
            proof { pv = seq![a@, b@]; }
            parts.push(a);
            parts.push(b);
        },
    }
    assert(parts@.map_values(|s: String| s@) =~= pv);
    if profile.port != 22 {
        let a = owned("-p");
        let b = crate::text::u64_to_decimal(profile.port as u64);
        proof { pv = pv + seq![a@, b@]; }
        parts.push(a);
        parts.push(b);
    }
    assert(parts@.map_values(|s: String| s@) =~= pv);
    let mut target = profile.user.clone();
    push_char(&mut target, '@');
    target.append(profile.host.as_str());
    assert(target@ =~= profile.user@ + seq!['@'] + profile.host@);
    proof { pv = pv.push(target@); }
    parts.push(target);
    assert(parts@.map_values(|s: String| s@) =~= pv);
    assert(pv =~= ssh_command_parts(t));
    let r = crate::text::join_from(&parts, 0, " ");
    proof {
        reveal_strlit(" ");
        assert(" "@ =~= seq![' ']);
        assert(parts@.subrange(0, parts@.len() as int) =~= parts@);
        lemma_ssh_command_text(t);
    }
    r
}

/// An exported command does not depend on secrets: a target gives the same
/// command as the same target with its password or passphrase removed.
pub proof fn lemma_export_ignores_secrets(t: TargetView)
    ensures
        ssh_command(stored_target(t)) == ssh_command(t),
{
    assert(ssh_command_parts(stored_target(t)) =~= ssh_command_parts(t));
}

/// The port and destination that an `ssh` client takes from the words of a
/// command ending in `[-p PORT] user@host`: the word after a `-p` just
/// before the destination, 22 when there is none.
pub open spec fn ssh_port_of(words: Seq<Seq<char>>) -> Option<u16> {
    if words.len() >= 3 && words[words.len() - 3] == "-p"@ {
        parse_u16(words[words.len() - 2])
    } else {
        Some(22)
    }
}

/// An exported command connects where the target says: `ssh` reads back the
/// target's port from it (a `-p` is given for every port but 22), and its
/// last word is `user@host`.
pub proof fn lemma_export_names_port_and_destination(t: TargetView)
    ensures
        ssh_port_of(ssh_command_parts(t)) == Some(t.port),
        ssh_command_parts(t).last() == t.user + "@"@ + t.host,
        t.port != 22 <==> ssh_command_parts(t).len() >= 3 && ssh_command_parts(t)[ssh_command_parts(
            t,
        ).len() - 3] == "-p"@,
{
    reveal_strlit("-p");
    reveal_strlit("-i");
    reveal_strlit("@");
    reveal_strlit("ssh");
    reveal_strlit("# (password auth \u{2014} enter password when prompted)\n");
    let w = ssh_command_parts(t);
    assert("@"@ =~= seq!['@']);
    assert("-p"@ != "-i"@) by {
        assert("-p"@[1] != "-i"@[1]);
    }
    assert("-p"@ != "# (password auth \u{2014} enter password when prompted)\n"@) by {
        assert("-p"@.len() != "# (password auth \u{2014} enter password when prompted)\n"@.len());
    }
    if t.port != 22 {
        lemma_decimal_reads_back(t.port);
    }
}

/// A profile built from flags keeps what the flags say: the port given, the
/// host and user trimmed, and the name `user@host:port`.
pub proof fn lemma_profile_keeps_flags(
    host: Seq<char>,
    port: u16,
    user: Seq<char>,
    password: Option<Seq<char>>,
    key_file: Option<Seq<char>>,
    passphrase: Option<Seq<char>>,
)
    ensures
        profile_from_flags(host, port, user, password, key_file, passphrase) matches Ok(t) ==> {
            &&& t.port == port
            &&& t.host == trim(host)
            &&& t.user == trim(user)
            &&& t.name == trim(user) + "@"@ + trim(host) + ":"@ + decimal(port as nat)
        },
{
    reveal_strlit("@");
    reveal_strlit(":");
    assert("@"@ =~= seq!['@']);
    assert(":"@ =~= seq![':']);
}

} // verus!
