//! Path derivation: where the target application keeps its store, and where
//! the agent keeps its own configuration and snapshots.
//!
//! The host's base directories come from the `dirs` crate behind trusted
//! wrappers; everything derived from them is computed and specified exactly.

use vstd::prelude::*;
use vstd::string::StringExecFns;
use crate::platform::{os_separator, spec_separator, HostOs};
use crate::text::push_char;

verus! {

/// Relies on `dirs::home_dir`; the result depends on the host environment.
#[verifier::external_body]
pub fn home_dir_path() -> (r: Option<String>) {
    dirs::home_dir().map(|p| p.to_string_lossy().to_string())
}

/// Relies on `dirs::config_dir`; the result depends on the host environment.
#[verifier::external_body]
pub fn config_dir_path() -> (r: Option<String>) {
    dirs::config_dir().map(|p| p.to_string_lossy().to_string())
}

/// Relies on `dirs::data_dir`; the result depends on the host environment.
#[verifier::external_body]
pub fn data_dir_path() -> (r: Option<String>) {
    dirs::data_dir().map(|p| p.to_string_lossy().to_string())
}

/// Relies on `dirs::data_local_dir`; the result depends on the host
/// environment.
#[verifier::external_body]
pub fn data_local_dir_path() -> (r: Option<String>) {
    dirs::data_local_dir().map(|p| p.to_string_lossy().to_string())
}

/// `base`, the host's separator, then `seg`.
pub open spec fn spec_join(base: Seq<char>, seg: Seq<char>, os: HostOs) -> Seq<char> {
    base + seq![spec_separator(os)] + seg
}

/// Join one path segment onto a base path.
pub fn join_path(base: &str, seg: &str, os: HostOs) -> (r: String)
    ensures
        r@ == spec_join(base@, seg@, os),
{
    let mut s = String::from_str(base);
    push_char(&mut s, os_separator(os));
    s.append(seg);
    proof {
        assert(s@ =~= spec_join(base@, seg@, os));
    }
    s
}

/// The target application's data directory under a base directory.
pub open spec fn spec_data_dir_under(base: Seq<char>, os: HostOs) -> Seq<char> {
    spec_join(spec_join(spec_join(base, "Antigravity"@, os), "User"@, os), "globalStorage"@, os)
}

/// Append the target application's data-directory suffix to a base
/// directory.
pub fn antigravity_data_dir_under(base: &str, os: HostOs) -> (r: String)
    ensures
        r@ == spec_data_dir_under(base@, os),
{
    let a = join_path(base, "Antigravity", os);
    let b = join_path(a.as_str(), "User", os);
    join_path(b.as_str(), "globalStorage", os)
}

/// Which base directory each host derives the data directory from: the
/// configuration directory on Windows, the data directory on macOS, the
/// configuration directory with the data directory as fallback on Linux.
pub open spec fn spec_data_dir_choice(
    os: HostOs,
    config_base: Option<Seq<char>>,
    data_base: Option<Seq<char>>,
) -> Option<Seq<char>> {
    match os {
        HostOs::Windows => config_base,
        HostOs::MacOs => data_base,
        HostOs::Linux => if config_base is Some {
            config_base
        } else {
            data_base
        },
        HostOs::Other => data_base,
    }
}

/// The target application's data directory, derived from the host's standard
/// base directories.
pub fn get_antigravity_data_dir(
    os: HostOs,
    config_base: &Option<String>,
    data_base: &Option<String>,
) -> (r: Option<String>)
    ensures
        match r {
            Some(p) => spec_data_dir_choice(os, config_base.deep_view(), data_base.deep_view())
                matches Some(b) && p@ == spec_data_dir_under(b, os),
            None => spec_data_dir_choice(os, config_base.deep_view(), data_base.deep_view())
                is None,
        },
{
    let base: &Option<String> = match os {
        HostOs::Windows => config_base,
        HostOs::MacOs => data_base,
        HostOs::Linux => if config_base.is_some() {
            config_base
        } else {
            data_base
        },
        HostOs::Other => data_base,
    };
    match base {
        Some(b) => Some(antigravity_data_dir_under(b.as_str(), os)),
        None => None,
    }
}

/// The directories that may hold a target-application installation: one under
/// the data directory and one under the configuration directory.
pub open spec fn spec_installation_candidates(
    data_base: Option<Seq<char>>,
    config_base: Option<Seq<char>>,
    os: HostOs,
) -> Seq<Seq<char>> {
    (match data_base {
        Some(d) => seq![spec_join(d, "Antigravity"@, os)],
        None => Seq::<Seq<char>>::empty(),
    }) + (match config_base {
        Some(c) => seq![spec_join(c, "Antigravity"@, os)],
        None => Seq::<Seq<char>>::empty(),
    })
}

/// List the locations where a target-application installation may live.
pub fn find_antigravity_installations(
    data_base: &Option<String>,
    config_base: &Option<String>,
    os: HostOs,
) -> (r: Vec<String>)
    ensures
        r.deep_view() == spec_installation_candidates(
            data_base.deep_view(),
            config_base.deep_view(),
            os,
        ),
{
    let mut v: Vec<String> = Vec::new();
    match data_base {
        Some(d) => {
            v.push(join_path(d.as_str(), "Antigravity", os));
        },
        None => {},
    }
    match config_base {
        Some(c) => {
            v.push(join_path(c.as_str(), "Antigravity", os));
        },
        None => {},
    }
    proof {
        assert(v.deep_view() =~= spec_installation_candidates(
            data_base.deep_view(),
            config_base.deep_view(),
            os,
        ));
    }
    v
}

/// The store file's path: a user-supplied data directory when it has been
/// validated to hold a store file, otherwise the detected directory.
pub fn get_antigravity_db_path(
    os: HostOs,
    custom: &Option<String>,
    custom_valid: bool,
    auto_dir: &Option<String>,
) -> (r: Option<String>)
    ensures
        match custom.deep_view() {
            Some(c) if custom_valid => r matches Some(p) && p@ == spec_join(c, "state.vscdb"@, os),
            _ => match auto_dir.deep_view() {
                Some(a) => r matches Some(p) && p@ == spec_join(a, "state.vscdb"@, os),
                None => r is None,
            },
        },
{
    match custom {
        Some(c) if custom_valid => Some(join_path(c.as_str(), "state.vscdb", os)),
        _ => match auto_dir {
            Some(a) => Some(join_path(a.as_str(), "state.vscdb", os)),
            None => None,
        },
    }
}

/// Whether the target application's store is available: a store path was
/// resolved and the runner's probe found the file.
pub fn is_antigravity_available(db_path: &Option<String>, db_file_exists: bool) -> (r: bool)
    ensures
        r == (db_path is Some && db_file_exists),
{
    db_path.is_some() && db_file_exists
}

/// The agent's own configuration directory: on Windows the roaming
/// application-data directory, with the home-derived roaming path and then
/// the configuration directory as fallbacks; elsewhere the configuration
/// directory, falling back to the working directory.
pub open spec fn spec_agent_config_dir(
    os: HostOs,
    appdata: Option<Seq<char>>,
    home: Option<Seq<char>>,
    config: Option<Seq<char>>,
) -> Seq<char> {
    if os is Windows {
        match appdata {
            Some(a) => spec_join(a, ".antigravity-agent"@, os),
            None => match home {
                Some(h) => spec_join(
                    spec_join(spec_join(h, "AppData"@, os), "Roaming"@, os),
                    ".antigravity-agent"@,
                    os,
                ),
                None => match config {
                    Some(c) => spec_join(c, ".antigravity-agent"@, os),
                    None => ".antigravity-agent"@,
                },
            },
        }
    } else {
        match config {
            Some(c) => spec_join(c, ".antigravity-agent"@, os),
            None => spec_join("."@, ".antigravity-agent"@, os),
        }
    }
}

/// Resolve the agent's configuration directory from the host's base
/// directories.
pub fn agent_config_dir(
    os: HostOs,
    appdata: &Option<String>,
    home: &Option<String>,
    config: &Option<String>,
) -> (r: String)
    ensures
        r@ == spec_agent_config_dir(os, appdata.deep_view(), home.deep_view(), config.deep_view()),
{
    if let HostOs::Windows = os {
        match appdata {
            Some(a) => join_path(a.as_str(), ".antigravity-agent", os),
            None => match home {
                Some(h) => {
                    let x = join_path(h.as_str(), "AppData", os);
                    let y = join_path(x.as_str(), "Roaming", os);
                    join_path(y.as_str(), ".antigravity-agent", os)
                },
                None => match config {
                    Some(c) => join_path(c.as_str(), ".antigravity-agent", os),
                    None => String::from_str(".antigravity-agent"),
                },
            },
        }
    } else {
        match config {
            Some(c) => join_path(c.as_str(), ".antigravity-agent", os),
            None => join_path(".", ".antigravity-agent", os),
        }
    }
}

/// The agent's fixed directory layout under its configuration directory.
pub struct AppPaths;

impl AppPaths {
    /// Where log files live.
    pub fn log_dir(agent_dir: &str, os: HostOs) -> (r: String)
        ensures
            r@ == spec_join(agent_dir@, "logs"@, os),
    {
        join_path(agent_dir, "logs", os)
    }

    /// Where account snapshots live.
    pub fn backup_dir(agent_dir: &str, os: HostOs) -> (r: String)
        ensures
            r@ == spec_join(agent_dir@, "antigravity-accounts"@, os),
    {
        join_path(agent_dir, "antigravity-accounts", os)
    }

    /// Where whole-profile backups live.
    pub fn profile_backup_dir(agent_dir: &str, os: HostOs) -> (r: String)
        ensures
            r@ == spec_join(agent_dir@, "backups"@, os),
    {
        join_path(agent_dir, "backups", os)
    }
}

/// A snapshot's file name is derived deterministically from the account
/// identifier, so capturing the same account twice targets the same file.
pub fn snapshot_file_name(account: &str) -> (r: String)
    ensures
        r@ == account@ + ".json"@,
{
    String::from_str(account).concat(".json")
}

} // verus!
