//! Where the client keeps its files: the data directory of the deployment
//! manager and its event queue, the stored revisions, the run state of a
//! unit, the credentials and the configuration.
//!
//! Paths are `/`-separated strings; joining them follows `Path::join`
//! (see `crate::text::join_path`).
use vstd::prelude::*;

use crate::deploy::LocalRunState;
use crate::text::{chars_of, join_path, path_join, string_from_str};

verus! {

/// `dirs::data_dir()`, as a string. It depends on the platform and the
/// environment, so nothing is stated of it; a path that is not valid UTF-8
/// reads as none.
#[verifier::external_body]
fn platform_data_dir() -> (r: Option<String>) {
    match dirs::data_dir() {
        Some(p) => p.into_os_string().into_string().ok(),
        None => None,
    }
}

/// `dirs::config_dir()`, as a string. It depends on the platform and the
/// environment, so nothing is stated of it; a path that is not valid UTF-8
/// reads as none.
#[verifier::external_body]
fn platform_config_dir() -> (r: Option<String>) {
    match dirs::config_dir() {
        Some(p) => p.into_os_string().into_string().ok(),
        None => None,
    }
}

/// The manager's data directory inside the platform's data directory.
pub open spec fn data_dir_of(base: Seq<char>) -> Seq<char> {
    join_path(base, "m87"@)
}

/// The event queue inside the manager's data directory.
pub open spec fn events_dir_of(data: Seq<char>) -> Seq<char> {
    join_path(data, "events"@)
}

/// The pending events.
pub open spec fn pending_dir_of(data: Seq<char>) -> Seq<char> {
    join_path(events_dir_of(data), "pending"@)
}

/// The events being sent.
pub open spec fn inflight_dir_of(data: Seq<char>) -> Seq<char> {
    join_path(events_dir_of(data), "inflight"@)
}

/// The manager's data directory, given the platform's.
pub fn data_dir_from(base: &Option<String>) -> (r: Result<String, String>)
    ensures
        match *base {
            Some(b) => r is Ok && r->Ok_0@ == data_dir_of(b@),
            None => r is Err && r->Err_0@ == "data_dir"@,
        },
{
    match base {
        Some(b) => Ok(path_join(b.as_str(), "m87")),
        None => Err(string_from_str("data_dir")),
    }
}

/// The manager's data directory: `m87` inside the platform's data directory,
/// or the error `data_dir` where the platform has none.
pub fn data_dir() -> (r: Result<String, String>)
    ensures
        r is Ok ==> exists|b: Seq<char>| r->Ok_0@ == data_dir_of(b),
        r is Err ==> r->Err_0@ == "data_dir"@,
{
    let base = platform_data_dir();
    data_dir_from(&base)
}

/// The event queue directory.
pub fn events_dir() -> (r: Result<String, String>)
    ensures
        r is Ok ==> exists|b: Seq<char>| r->Ok_0@ == events_dir_of(data_dir_of(b)),
        r is Err ==> r->Err_0@ == "data_dir"@,
{
    let d = data_dir()?;
    Ok(path_join(d.as_str(), "events"))
}

/// The directory of pending events.
pub fn pending_dir() -> (r: Result<String, String>)
    ensures
        r is Ok ==> exists|b: Seq<char>| r->Ok_0@ == pending_dir_of(data_dir_of(b)),
        r is Err ==> r->Err_0@ == "data_dir"@,
{
    let d = data_dir()?;
    let e = path_join(d.as_str(), "events");
    Ok(path_join(e.as_str(), "pending"))
}

/// The directory of events being sent.
pub fn inflight_dir() -> (r: Result<String, String>)
    ensures
        r is Ok ==> exists|b: Seq<char>| r->Ok_0@ == inflight_dir_of(data_dir_of(b)),
        r is Err ==> r->Err_0@ == "data_dir"@,
{
    let d = data_dir()?;
    let e = path_join(d.as_str(), "events");
    Ok(path_join(e.as_str(), "inflight"))
}

/// The stored revisions: the desired one and the one before it.
pub struct RevisionStore {}

impl RevisionStore {
    /// The file of the desired revision.
    pub fn desired_path() -> (r: Result<String, String>)
        ensures
            r is Ok ==> exists|b: Seq<char>| r->Ok_0@ == join_path(
                data_dir_of(b),
                "desired_units.json"@,
            ),
            r is Err ==> r->Err_0@ == "data_dir"@,
    {
        let d = data_dir()?;
        Ok(path_join(d.as_str(), "desired_units.json"))
    }

    /// The file of the previous revision, kept for rollback.
    pub fn previous_path() -> (r: Result<String, String>)
        ensures
            r is Ok ==> exists|b: Seq<char>| r->Ok_0@ == join_path(
                data_dir_of(b),
                "previous_units.json"@,
            ),
            r is Err ==> r->Err_0@ == "data_dir"@,
    {
        let d = data_dir()?;
        Ok(path_join(d.as_str(), "previous_units.json"))
    }
}

impl LocalRunState {
    /// The file that keeps a unit's run state in its work directory.
    pub fn state_file_path(work_dir: &str) -> (r: String)
        ensures
            r@ == join_path(work_dir@, "run_state.json"@),
    {
        path_join(work_dir, "run_state.json")
    }
}

/// The credentials file inside the platform's configuration directory.
pub open spec fn credentials_path_of(config_dir: Seq<char>) -> Seq<char> {
    join_path(join_path(config_dir, "m87"@), "credentials.json"@)
}

/// The credentials file, given the platform's configuration directory.
pub fn credentials_path_from(config_dir: &Option<String>) -> (r: Result<String, String>)
    ensures
        match *config_dir {
            Some(c) => r is Ok && r->Ok_0@ == credentials_path_of(c@),
            None => r is Err && r->Err_0@ == "Failed to get config directory"@,
        },
{
    match config_dir {
        Some(c) => {
            let m = path_join(c.as_str(), "m87");
            Ok(path_join(m.as_str(), "credentials.json"))
        },
        None => Err(string_from_str("Failed to get config directory")),
    }
}

/// The credentials file: `m87/credentials.json` in the platform's
/// configuration directory.
pub fn default_credentials_path() -> (r: Result<String, String>)
    ensures
        r is Ok ==> exists|c: Seq<char>| r->Ok_0@ == credentials_path_of(c),
        r is Err ==> r->Err_0@ == "Failed to get config directory"@,
{
    let c = platform_config_dir();
    credentials_path_from(&c)
}

/// The kind of system the client runs on, as far as the configuration
/// directory depends on it.
#[derive(Debug, Clone, Copy, PartialEq, Eq, Structural)]
pub enum HostOs {
    Linux,
    MacOs,
    /// Another Unix.
    OtherUnix,
}

/// Where the configuration lives when running under `sudo`, given the
/// invoking user's home directory and `XDG_CONFIG_HOME`: on Linux an
/// absolute `XDG_CONFIG_HOME`, else `.config` in that home; on macOS
/// `Library/Application Support` in that home; on another Unix `.config`
/// in that home.
pub open spec fn sudo_config_dir(os: HostOs, home: Seq<char>, xdg: Option<Seq<char>>) -> Seq<char> {
    match os {
        HostOs::MacOs => join_path(home, "Library/Application Support"@),
        HostOs::OtherUnix => join_path(home, ".config"@),
        HostOs::Linux => match xdg {
            Some(x) => if x.len() > 0 && x[0] == '/' {
                x
            } else {
                join_path(home, ".config"@)
            },
            None => join_path(home, ".config"@),
        },
    }
}

/// The configuration directory. `sudo_home` is set when running under
/// `sudo` on a Unix (`SUDO_USER` is set) and holds the invoking user's home
/// directory where it was found; `xdg` is `XDG_CONFIG_HOME`; `platform` is
/// `dirs::config_dir()`.
pub fn config_dir_from(
    os: HostOs,
    sudo_home: &Option<Option<String>>,
    xdg: &Option<String>,
    platform: &Option<String>,
) -> (r: Result<String, String>)
    ensures
        match *sudo_home {
            Some(Some(h)) => r is Ok && r->Ok_0@ == sudo_config_dir(
                os,
                h@,
                match *xdg {
                    Some(x) => Some(x@),
                    None => None,
                },
            ),
            Some(None) => r is Err && r->Err_0@
                == "Failed to get sudo user's home directory"@,
            None => match *platform {
                Some(p) => r is Ok && r->Ok_0@ == p@,
                None => r is Err && r->Err_0@ == "Failed to get config directory"@,
            },
        },
{
    match sudo_home {
        Some(Some(h)) => {
            match os {
                HostOs::MacOs => {
                    return Ok(path_join(h.as_str(), "Library/Application Support"));
                },
                HostOs::OtherUnix => {
                    return Ok(path_join(h.as_str(), ".config"));
                },
                HostOs::Linux => {},
            }
            match xdg {
                Some(x) => {
                    let xc = chars_of(x.as_str());
                    let absolute = xc.len() > 0 && xc[0] == '/';
                    if absolute {
                        return Ok(x.clone());
                    }
                },
                None => {},
            }
            Ok(path_join(h.as_str(), ".config"))
        },
        Some(None) => Err(string_from_str("Failed to get sudo user's home directory")),
        None => match platform {
            Some(p) => Ok(p.clone()),
            None => Err(string_from_str("Failed to get config directory")),
        },
    }
}

/// The configuration file inside the configuration directory.
pub open spec fn config_file_of(config_dir: Seq<char>) -> Seq<char> {
    join_path(join_path(config_dir, "m87"@), "config.json"@)
}

/// The configuration file, `m87/config.json` in the configuration directory.
pub fn config_file_path(config_dir: &str) -> (r: String)
    ensures
        r@ == config_file_of(config_dir@),
{
    let m = path_join(config_dir, "m87");
    path_join(m.as_str(), "config.json")
}

} // verus!
