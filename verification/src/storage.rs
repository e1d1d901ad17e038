//! Where the configuration lives and what of it may be written to disk.
use vstd::prelude::*;

use crate::keys::{join_path, path_join};
use crate::models::{AppConfig, AuthMethod, AuthView, ConfigView, TargetProfile, TargetView, clone_opt_string, opt_view};
use crate::text::trim;

verus! {

/// Why the configuration location could not be found.
#[derive(Debug, PartialEq, Eq, Structural)]
pub enum StorageError {
    /// The override variable is set to the empty string.
    OverrideEmpty,
    /// The platform has no configuration directory.
    NoConfigDirectory,
}

impl StorageError {
    pub open spec fn spec_message(self) -> Seq<char> {
        match self {
            StorageError::OverrideEmpty => "CYBERDECK_CONFIG_DIR is set but empty"@,
            StorageError::NoConfigDirectory => "could not locate config directory"@,
        }
    }

    /// The explanation shown to the user.
    pub fn message(&self) -> (r: &'static str)
        ensures
            r@ == self.spec_message(),
    {
        match self {
            StorageError::OverrideEmpty => "CYBERDECK_CONFIG_DIR is set but empty",
            StorageError::NoConfigDirectory => "could not locate config directory",
        }
    }
}

pub open spec fn dir_result_view(r: Result<String, StorageError>) -> Result<Seq<char>, StorageError> {
    match r {
        Ok(s) => Ok(s@),
        Err(e) => Err(e),
    }
}

/// The configuration directory: the override when it is set (and not
/// empty), else `cyberdeck` inside the platform's configuration directory.
pub open spec fn config_dir_from(
    default_dir: Option<Seq<char>>,
    override_dir: Option<Seq<char>>,
) -> Result<Seq<char>, StorageError> {
    match override_dir {
        Some(o) => if o.len() == 0 {
            Err(StorageError::OverrideEmpty)
        } else {
            Ok(o)
        },
        None => match default_dir {
            Some(d) => Ok(path_join(d, "cyberdeck"@)),
            None => Err(StorageError::NoConfigDirectory),
        },
    }
}

pub open spec fn opt_seq_view(o: Option<String>) -> Option<Seq<char>> {
    opt_view(o)
}

/// Resolves the configuration directory from the platform default and the
/// override variable.
pub fn resolve_config_dir(default_dir: Option<String>, override_dir: Option<String>) -> (r: Result<
    String,
    StorageError,
>)
    ensures
        dir_result_view(r) == config_dir_from(opt_view(default_dir), opt_view(override_dir)),
{
    if let Some(o) = override_dir {
        if o.as_str().is_empty() {
            return Err(StorageError::OverrideEmpty);
        }
        return Ok(o);
    }
    match default_dir {
        Some(d) => Ok(join_path(d.as_str(), "cyberdeck")),
        None => Err(StorageError::NoConfigDirectory),
    }
}

/// The platform's configuration directory.
/// Trusted: `dirs::config_dir`, which reads the environment
/// (`$XDG_CONFIG_HOME`, else `~/.config` on Linux), so nothing is stated of
/// its result; the path is handed over as text.
#[verifier::external_body]
fn platform_config_dir() -> (r: Option<String>) {
    match dirs::config_dir() {
        Some(p) => Some(p.to_string_lossy().into_owned()),
        None => None,
    }
}

/// The configuration directory, given the value of the override variable.
pub fn config_dir(override_dir: Option<String>) -> (r: Result<String, StorageError>)
    ensures
        exists|d: Option<Seq<char>>|
            #[trigger] config_dir_from(d, opt_view(override_dir)) == dir_result_view(r),
{
    let default_dir = platform_config_dir();
    let r = resolve_config_dir(default_dir, override_dir);
    assert(config_dir_from(opt_view(default_dir), opt_view(override_dir)) == dir_result_view(r));
    r
}

/// The configuration file: `config.json` in the configuration directory.
pub open spec fn config_file_from(
    default_dir: Option<Seq<char>>,
    override_dir: Option<Seq<char>>,
) -> Result<Seq<char>, StorageError> {
    match config_dir_from(default_dir, override_dir) {
        Ok(d) => Ok(path_join(d, "config.json"@)),
        Err(e) => Err(e),
    }
}

/// The path of the configuration file, given the value of the override variable.
pub fn config_path(override_dir: Option<String>) -> (r: Result<String, StorageError>)
    ensures
        exists|d: Option<Seq<char>>|
            #[trigger] config_file_from(d, opt_view(override_dir)) == dir_result_view(r),
{
    let ghost ov = opt_view(override_dir);
    let dir = config_dir(override_dir);
    let ghost d = choose|d: Option<Seq<char>>| #[trigger] config_dir_from(d, ov) == dir_result_view(dir);
    match dir {
        Ok(p) => {
            let r = join_path(p.as_str(), "config.json");
            assert(config_file_from(d, ov) == dir_result_view(Ok::<String, StorageError>(r)));
            Ok(r)
        },
        Err(e) => {
            assert(config_file_from(d, ov) == dir_result_view(Err::<String, StorageError>(e)));
            Err(e)
        },
    }
}

/// A configuration text with nothing but whitespace stands for the default
/// configuration.
pub fn is_blank_config(raw: &str) -> (r: bool)
    ensures
        r == (trim(raw@).len() == 0),
{
    let t = crate::text::trim_str(raw);
    t.as_str().is_empty()
}

/// A target as it may be stored: password emptied, passphrase removed.
pub open spec fn stored_target(t: TargetView) -> TargetView {
    TargetView {
        auth: match t.auth {
            AuthView::Password { password } => AuthView::Password { password: seq![] },
            AuthView::KeyFile { private_key, passphrase } => AuthView::KeyFile {
                private_key,
                passphrase: None,
            },
        },
        ..t
    }
}

pub open spec fn stored_config(c: ConfigView) -> ConfigView {
    ConfigView { targets: c.targets.map_values(|t: TargetView| stored_target(t)), theme: c.theme }
}

/// A target holds no password or passphrase.
pub open spec fn holds_no_secret(t: TargetView) -> bool {
    match t.auth {
        AuthView::Password { password } => password.len() == 0,
        AuthView::KeyFile { passphrase, .. } => passphrase is None,
    }
}

fn sanitize_target(t: &TargetProfile) -> (r: TargetProfile)
    ensures
        r@ == stored_target(t@),
{
    let auth = match &t.auth {
        AuthMethod::Password { .. } => AuthMethod::Password { password: String::new() },
        AuthMethod::KeyFile { private_key, .. } => AuthMethod::KeyFile {
            private_key: private_key.clone(),
            passphrase: None,
        },
    };
    let r = TargetProfile {
        name: t.name.clone(),
        host: t.host.clone(),
        port: t.port,
        user: t.user.clone(),
        auth,
    };
    assert(r@.auth == stored_target(t@).auth);
    r
}

/// The configuration with every password and passphrase stripped, as it is
/// written to disk.
pub fn sanitize_for_persistence(cfg: &AppConfig) -> (r: AppConfig)
    ensures
        r@ == stored_config(cfg@),
{
    let mut targets: Vec<TargetProfile> = Vec::new();
    let mut i: usize = 0;
    let ghost tv = cfg@.targets;
    while i < cfg.targets.len()
        invariant
            tv == cfg@.targets,
            tv.len() == cfg.targets@.len(),
            i <= cfg.targets@.len(),
            targets@.len() == i,
            forall|k: int| 0 <= k < i ==> #[trigger] targets@[k]@ == stored_target(tv[k]),
        decreases cfg.targets@.len() - i,
    {
        assert(tv[i as int] == cfg.targets@[i as int]@);
        targets.push(sanitize_target(&cfg.targets[i]));
        i += 1;
    }
    let r = AppConfig { targets, theme: clone_opt_string(&cfg.theme) };
    assert(r@.targets =~= stored_config(cfg@).targets);
    r
}

/// No target of a configuration prepared for disk holds a password or a
/// passphrase.
pub proof fn lemma_stored_config_holds_no_secret(c: ConfigView)
    ensures
        forall|i: int|
            0 <= i < stored_config(c).targets.len() ==> holds_no_secret(
                #[trigger] stored_config(c).targets[i],
            ),
{
}

/// Preparing a configuration for disk keeps everything but the secrets: the
/// targets in their order, their names, hosts, ports, users, kind of
/// authentication and key paths, and the theme.
pub proof fn lemma_stored_config_keeps_the_rest(c: ConfigView)
    ensures
        stored_config(c).targets.len() == c.targets.len(),
        stored_config(c).theme == c.theme,
        forall|i: int|
            0 <= i < c.targets.len() ==> {
                let s = #[trigger] stored_config(c).targets[i];
                let t = c.targets[i];
                &&& s.name == t.name
                &&& s.host == t.host
                &&& s.port == t.port
                &&& s.user == t.user
                &&& (s.auth is Password <==> t.auth is Password)
                &&& (t.auth matches AuthView::KeyFile { private_key, .. } ==> s.auth
                    matches AuthView::KeyFile { private_key: k, .. } && k == private_key)
            },
{
}

/// A configuration that holds no secret is written as it is; in particular,
/// preparing a configuration for disk a second time changes nothing.
pub proof fn lemma_stored_config_fixed_point(c: ConfigView)
    ensures
        (forall|i: int| 0 <= i < c.targets.len() ==> holds_no_secret(#[trigger] c.targets[i]))
            ==> stored_config(c) == c,
        stored_config(stored_config(c)) == stored_config(c),
{
    if forall|i: int| 0 <= i < c.targets.len() ==> holds_no_secret(#[trigger] c.targets[i]) {
        assert forall|i: int| 0 <= i < c.targets.len() implies #[trigger] stored_target(c.targets[i])
            == c.targets[i] by {
            assert(holds_no_secret(c.targets[i]));
            match c.targets[i].auth {
                AuthView::Password { password } => {
                    assert(password =~= Seq::<char>::empty());
                },
                _ => {},
            }
        }
        assert(stored_config(c).targets =~= c.targets);
    }
    lemma_stored_config_holds_no_secret(c);
    let s = stored_config(c);
    assert forall|i: int| 0 <= i < s.targets.len() implies #[trigger] stored_target(s.targets[i])
        == s.targets[i] by {
        assert(holds_no_secret(s.targets[i]));
        match s.targets[i].auth {
            AuthView::Password { password } => {
                assert(password =~= Seq::<char>::empty());
            },
            _ => {},
        }
    }
    assert(stored_config(s).targets =~= s.targets);
}

} // verus!
