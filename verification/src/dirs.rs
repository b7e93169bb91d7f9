//! Where the daemon keeps its files: configuration, data, runtime and
//! state directories, and the default database and descriptor paths.
//!
//! The platform's base directories come from an outside crate through
//! trusted wrappers; everything derived from them is computed and
//! proved here.  Paths are held as plain strings joined with `/`.

use vstd::prelude::*;

verus! {

use vstd::string::StringExecFns;

/// The platform's base directories, as plain strings.
#[derive(Debug)]
pub struct BaseDirsInfo {
    pub config_dir: String,
    pub data_local_dir: String,
    pub runtime_dir: Option<String>,
}

#[verifier::external_type_specification]
#[verifier::external_body]
pub struct ExBaseDirs(directories::BaseDirs);

/// Relies on `directories::BaseDirs::new`: the platform's base
/// directories, where the operating system reports a home.
#[verifier::external_body]
fn platform_base_dirs() -> (r: Option<directories::BaseDirs>) {
    directories::BaseDirs::new()
}

/// Relies on `directories::BaseDirs::config_dir`, rendered lossily to
/// text.
#[verifier::external_body]
fn platform_config_dir(b: &directories::BaseDirs) -> (r: String) {
    b.config_dir().to_string_lossy().into_owned()
}

/// Relies on `directories::BaseDirs::data_local_dir`, rendered lossily
/// to text.
#[verifier::external_body]
fn platform_data_local_dir(b: &directories::BaseDirs) -> (r: String) {
    b.data_local_dir().to_string_lossy().into_owned()
}

/// Relies on `directories::BaseDirs::runtime_dir`, rendered lossily to
/// text where the platform has one.
#[verifier::external_body]
fn platform_runtime_dir(b: &directories::BaseDirs) -> (r: Option<String>) {
    b.runtime_dir().map(|p| p.to_string_lossy().into_owned())
}

/// A path with one more component.
pub open spec fn joined(base: Seq<char>, child: Seq<char>) -> Seq<char> {
    base + "/"@ + child
}

/// Joins one component onto a path.
pub fn join_path(base: &str, child: &str) -> (r: String)
    ensures
        r@ == joined(base@, child@),
{
    let mut s = base.to_owned();
    s.append("/");
    s.append(child);
    s
}

/// The directories the daemon uses.
#[derive(Debug)]
pub struct ModuPromptDirs {
    pub config_dir: String,
    pub data_dir: String,
    pub runtime_dir: String,
    pub state_dir: String,
}

/// How the directories follow from the platform's report and the
/// home fallback.
pub open spec fn dirs_ok(
    r: ModuPromptDirs,
    base: Option<BaseDirsInfo>,
    home: Seq<char>,
) -> bool {
    (match base {
        Some(b) => r.config_dir@ == joined(b.config_dir@, "moduprompt"@) && r.data_dir@ == joined(
            b.data_local_dir@,
            "moduprompt"@,
        ) && r.runtime_dir@ == (match b.runtime_dir {
            Some(rt) => joined(rt@, "moduprompt"@),
            None => joined(joined(b.data_local_dir@, "moduprompt"@), "run"@),
        }),
        None => r.config_dir@ == joined(joined(home, ".moduprompt"@), "config"@) && r.data_dir@
            == joined(joined(home, ".moduprompt"@), "data"@) && r.runtime_dir@ == joined(
            joined(joined(home, ".moduprompt"@), "data"@),
            "run"@,
        ),
    }) && r.state_dir@ == joined(r.data_dir@, "state"@)
}

/// The fallback layout under a home directory, used where the
/// platform reports no base directories.
pub fn fallback_dirs(home: &str) -> (r: (String, String))
    ensures
        r.0@ == joined(joined(home@, ".moduprompt"@), "config"@),
        r.1@ == joined(joined(home@, ".moduprompt"@), "data"@),
{
    let base = join_path(home, ".moduprompt");
    let config = join_path(base.as_str(), "config");
    let data = join_path(base.as_str(), "data");
    (config, data)
}

/// Computes the directories from a platform report and the home
/// fallback.
pub fn resolve_dirs_from(base: Option<BaseDirsInfo>, home: &str) -> (r: ModuPromptDirs)
    ensures
        dirs_ok(r, base, home@),
{
    match base {
        Some(b) => {
            let config_dir = join_path(b.config_dir.as_str(), "moduprompt");
            let data_dir = join_path(b.data_local_dir.as_str(), "moduprompt");
            let runtime_dir = match &b.runtime_dir {
                Some(rt) => join_path(rt.as_str(), "moduprompt"),
                None => join_path(data_dir.as_str(), "run"),
            };
            let state_dir = join_path(data_dir.as_str(), "state");
            ModuPromptDirs { config_dir, data_dir, runtime_dir, state_dir }
        },
        None => {
            let (config_dir, data_dir) = fallback_dirs(home);
            let runtime_dir = join_path(data_dir.as_str(), "run");
            let state_dir = join_path(data_dir.as_str(), "state");
            ModuPromptDirs { config_dir, data_dir, runtime_dir, state_dir }
        },
    }
}

/// Resolves the directories, asking the platform and falling back to
/// the given home.  The state directory always sits under the data
/// directory.
pub fn resolve_dirs(home: &str) -> (r: ModuPromptDirs)
    ensures
        r.state_dir@ == joined(r.data_dir@, "state"@),
{
    let base = match platform_base_dirs() {
        Some(b) => {
            let config_dir = platform_config_dir(&b);
            let data_local_dir = platform_data_local_dir(&b);
            let runtime_dir = platform_runtime_dir(&b);
            Some(BaseDirsInfo { config_dir, data_local_dir, runtime_dir })
        },
        None => None,
    };
    resolve_dirs_from(base, home)
}

/// The configuration directory.
pub fn config_dir(dirs: &ModuPromptDirs) -> (r: String)
    ensures
        r@ == dirs.config_dir@,
{
    dirs.config_dir.clone()
}

/// The data directory.
pub fn data_dir(dirs: &ModuPromptDirs) -> (r: String)
    ensures
        r@ == dirs.data_dir@,
{
    dirs.data_dir.clone()
}

/// The runtime directory.
pub fn runtime_dir(dirs: &ModuPromptDirs) -> (r: String)
    ensures
        r@ == dirs.runtime_dir@,
{
    dirs.runtime_dir.clone()
}

/// The state directory.
pub fn state_dir(dirs: &ModuPromptDirs) -> (r: String)
    ensures
        r@ == dirs.state_dir@,
{
    dirs.state_dir.clone()
}

/// The default database path: `mpd.sqlite` under the state directory.
pub fn default_db_path(dirs: &ModuPromptDirs) -> (r: String)
    ensures
        r@ == joined(dirs.state_dir@, "mpd.sqlite"@),
{
    join_path(dirs.state_dir.as_str(), "mpd.sqlite")
}

/// The runtime descriptor path: `daemon.json` under the runtime
/// directory.
pub fn runtime_file_path(dirs: &ModuPromptDirs) -> (r: String)
    ensures
        r@ == joined(dirs.runtime_dir@, "daemon.json"@),
{
    join_path(dirs.runtime_dir.as_str(), "daemon.json")
}

/// The default runtime directory, resolved from the platform.
pub fn default_runtime_dir(home: &str) -> (r: String) {
    let dirs = resolve_dirs(home);
    dirs.runtime_dir
}

} // verus!
