//! Core data: authentication methods, target profiles, the saved
//! configuration, local keys and remote command results.
use vstd::prelude::*;

use crate::text::{decimal, push_decimal};

verus! {

/// The text a `String` option holds, as a sequence of characters.
pub open spec fn opt_view(o: Option<String>) -> Option<Seq<char>> {
    match o {
        Some(s) => Some(s@),
        None => None,
    }
}

/// How a target is authenticated against.
#[derive(Debug, PartialEq, Eq)]
pub enum AuthMethod {
    Password { password: String },
    KeyFile { private_key: String, passphrase: Option<String> },
}

pub enum AuthView {
    Password { password: Seq<char> },
    KeyFile { private_key: Seq<char>, passphrase: Option<Seq<char>> },
}

impl View for AuthMethod {
    type V = AuthView;

    open spec fn view(&self) -> AuthView {
        match self {
            AuthMethod::Password { password } => AuthView::Password { password: password@ },
            AuthMethod::KeyFile { private_key, passphrase } => AuthView::KeyFile {
                private_key: private_key@,
                passphrase: opt_view(*passphrase),
            },
        }
    }
}

pub fn clone_opt_string(o: &Option<String>) -> (r: Option<String>)
    ensures
        r == *o,
{
    match o {
        Some(s) => Some(s.clone()),
        None => None,
    }
}

impl Clone for AuthMethod {
    fn clone(&self) -> (r: Self)
        ensures
            r == *self,
    {
        match self {
            AuthMethod::Password { password } => AuthMethod::Password { password: password.clone() },
            AuthMethod::KeyFile { private_key, passphrase } => AuthMethod::KeyFile {
                private_key: private_key.clone(),
                passphrase: clone_opt_string(passphrase),
            },
        }
    }
}

/// A saved SSH connection target.
#[derive(Debug, PartialEq, Eq)]
pub struct TargetProfile {
    pub name: String,
    pub host: String,
    pub port: u16,
    pub user: String,
    pub auth: AuthMethod,
}

pub struct TargetView {
    pub name: Seq<char>,
    pub host: Seq<char>,
    pub port: u16,
    pub user: Seq<char>,
    pub auth: AuthView,
}

impl View for TargetProfile {
    type V = TargetView;

    open spec fn view(&self) -> TargetView {
        TargetView {
            name: self.name@,
            host: self.host@,
            port: self.port,
            user: self.user@,
            auth: self.auth@,
        }
    }
}

/// `host:port`.
pub open spec fn endpoint_of(host: Seq<char>, port: u16) -> Seq<char> {
    host + seq![':'] + decimal(port as nat)
}

impl Clone for TargetProfile {
    fn clone(&self) -> (r: Self)
        ensures
            r == *self,
    {
        TargetProfile {
            name: self.name.clone(),
            host: self.host.clone(),
            port: self.port,
            user: self.user.clone(),
            auth: self.auth.clone(),
        }
    }
}

impl TargetProfile {
    /// The `host:port` address of the target.
    pub fn endpoint(&self) -> (r: String)
        ensures
            r@ == endpoint_of(self.host@, self.port),
    {
        let mut r = self.host.clone();
        r.append(":");
        proof {
            reveal_strlit(":");
        }
        push_decimal(&mut r, self.port as u64);
        assert(r@ =~= endpoint_of(self.host@, self.port));
        r
    }
}

/// The saved configuration: targets and the chosen theme.
#[derive(Debug)]
pub struct AppConfig {
    pub targets: Vec<TargetProfile>,
    pub theme: Option<String>,
}

pub struct ConfigView {
    pub targets: Seq<TargetView>,
    pub theme: Option<Seq<char>>,
}

impl View for AppConfig {
    type V = ConfigView;

    open spec fn view(&self) -> ConfigView {
        ConfigView {
            targets: self.targets@.map_values(|t: TargetProfile| t@),
            theme: opt_view(self.theme),
        }
    }
}

impl Default for AppConfig {
    fn default() -> (r: Self)
        ensures
            r.targets@.len() == 0,
            r.theme is None,
    {
        AppConfig { targets: Vec::new(), theme: None }
    }
}

pub fn clone_targets(v: &Vec<TargetProfile>) -> (r: Vec<TargetProfile>)
    ensures
        r@ == v@,
{
    let mut r: Vec<TargetProfile> = Vec::new();
    let mut i: usize = 0;
    while i < v.len()
        invariant
            i <= v@.len(),
            r@ == v@.take(i as int),
        decreases v@.len() - i,
    {
        r.push(v[i].clone());
        i += 1;
        assert(r@ =~= v@.take(i as int));
    }
    assert(v@.take(v@.len() as int) =~= v@);
    r
}

impl Clone for AppConfig {
    fn clone(&self) -> (r: Self)
        ensures
            r.targets@ == self.targets@,
            r.theme == self.theme,
    {
        AppConfig { targets: clone_targets(&self.targets), theme: clone_opt_string(&self.theme) }
    }
}

/// A public key found in the local SSH directory.
#[derive(Debug)]
pub struct LocalKey {
    pub name: String,
    pub algorithm: String,
    pub comment: String,
    pub fingerprint: String,
    pub public_key_path: String,
    pub private_key_path: Option<String>,
}

pub struct LocalKeyView {
    pub name: Seq<char>,
    pub algorithm: Seq<char>,
    pub comment: Seq<char>,
    pub fingerprint: Seq<char>,
    pub public_key_path: Seq<char>,
    pub private_key_path: Option<Seq<char>>,
}

impl View for LocalKey {
    type V = LocalKeyView;

    open spec fn view(&self) -> LocalKeyView {
        LocalKeyView {
            name: self.name@,
            algorithm: self.algorithm@,
            comment: self.comment@,
            fingerprint: self.fingerprint@,
            public_key_path: self.public_key_path@,
            private_key_path: opt_view(self.private_key_path),
        }
    }
}

impl Clone for LocalKey {
    fn clone(&self) -> (r: Self)
        ensures
            r == *self,
    {
        LocalKey {
            name: self.name.clone(),
            algorithm: self.algorithm.clone(),
            comment: self.comment.clone(),
            fingerprint: self.fingerprint.clone(),
            public_key_path: self.public_key_path.clone(),
            private_key_path: clone_opt_string(&self.private_key_path),
        }
    }
}

/// What a remote command printed and how it exited.
#[derive(Debug)]
pub struct CommandResult {
    pub stdout: String,
    pub stderr: String,
    pub exit_status: i32,
}

impl Clone for CommandResult {
    fn clone(&self) -> (r: Self)
        ensures
            r == *self,
    {
        CommandResult {
            stdout: self.stdout.clone(),
            stderr: self.stderr.clone(),
            exit_status: self.exit_status,
        }
    }
}

} // verus!
