//! Settings of the relay server (`pst-server.toml`).

use vstd::prelude::*;
use crate::peercast::client::auth_view;
use crate::peercast::types::{BasicAuth, PeerCastEndpoint};
use std::path::PathBuf;
use crate::config::{joined_path, path_join, project_config_dir};
use crate::text::{chars_of, string_of, trim, trim_exec};

verus! {

/// Recording (off unless enabled with a directory).
#[derive(Debug, Clone)]
pub struct RecordingConfig {
    /// Off: the recording API answers 503.
    pub enabled: bool,
    /// Output directory; blank turns recording off even when enabled.
    pub dir: String,
    /// File extension; blank means `flv`.
    pub ext: String,
    /// Most recordings at once; 0 means 8.
    pub max_concurrent: u32,
    /// Seconds between polls of the automatic recording; 0 means 60.
    pub auto_poll_interval_sec: u64,
    /// Seconds an automatic recording goes on after its channel is gone;
    /// 0 means 30.
    pub auto_stop_grace_sec: u64,
}

impl Default for RecordingConfig {
    fn default() -> (r: RecordingConfig)
        ensures
            !r.enabled && r.dir@.len() == 0 && r.ext@.len() == 0,
            r.max_concurrent == 0 && r.auto_poll_interval_sec == 0 && r.auto_stop_grace_sec == 0,
    {
        RecordingConfig {
            enabled: false,
            dir: String::new(),
            ext: String::new(),
            max_concurrent: 0,
            auto_poll_interval_sec: 0,
            auto_stop_grace_sec: 0,
        }
    }
}

/// Logging (nothing is written unless `debug` is on with a directory).
#[derive(Debug, Clone)]
pub struct LogConfig {
    pub debug: bool,
    pub dir: String,
}

impl Default for LogConfig {
    fn default() -> (r: LogConfig)
        ensures
            !r.debug && r.dir@.len() == 0,
    {
        LogConfig { debug: false, dir: String::new() }
    }
}

/// The directory logs go to: the trimmed `dir` when `debug` is on and the
/// directory is not blank; otherwise no logging.
pub fn log_dir(cfg: &LogConfig) -> (r: Option<String>)
    ensures
        match r {
            Some(d) => cfg.debug && trim(cfg.dir@).len() > 0 && d@ == trim(cfg.dir@),
            None => !cfg.debug || trim(cfg.dir@).len() == 0,
        },
{
    if !cfg.debug {
        return None;
    }
    let d = trim_exec(chars_of(cfg.dir.as_str()).as_slice());
    if d.len() == 0 {
        return None;
    }
    Some(string_of(d.as_slice()))
}

/// The PeerCast node the server relays.
#[derive(Debug, Clone)]
pub struct PeerCastUpstream {
    pub host: String,
    pub port: u16,
    pub auth_user: Option<String>,
    pub auth_pass: Option<String>,
}

impl Default for PeerCastUpstream {
    fn default() -> (r: PeerCastUpstream)
        ensures
            r.host@ == "localhost"@,
            r.port == 7144,
            r.auth_user is None,
            r.auth_pass is None,
    {
        PeerCastUpstream {
            host: String::from_str("localhost"),
            port: 7144,
            auth_user: None,
            auth_pass: None,
        }
    }
}

/// The credentials of the upstream node: a non-empty user with a password.
pub open spec fn upstream_auth_of(up: PeerCastUpstream) -> Option<(Seq<char>, Seq<char>)> {
    match up.auth_user {
        Some(u) => match up.auth_pass {
            Some(p) => if u@.len() > 0 {
                Some((u@, p@))
            } else {
                None
            },
            None => None,
        },
        None => None,
    }
}

/// The endpoint of the upstream node, with its credentials.
pub fn upstream_endpoint(up: &PeerCastUpstream) -> (r: PeerCastEndpoint)
    ensures
        r.host@ == up.host@,
        r.port == up.port,
        auth_view(r.auth) == upstream_auth_of(*up),
{
    let auth = match (&up.auth_user, &up.auth_pass) {
        (Some(u), Some(p)) => if u.as_str().unicode_len() > 0 {
            Some(BasicAuth { user: u.clone(), pass: p.clone() })
        } else {
            None
        },
        _ => None,
    };
    PeerCastEndpoint { host: up.host.clone(), port: up.port, auth }
}

/// The answer of [`default_config_path`] for what the platform gave as the
/// configuration directory: `pst-server.toml` joined to it, or `None`.
pub fn server_config_path_from(found: Option<PathBuf>) -> (r: Option<PathBuf>)
    ensures
        found is None ==> r is None,
        found matches Some(d) ==> r == Some(joined_path(d, "pst-server.toml"@)),
{
    match found {
        Some(d) => Some(path_join(&d, "pst-server.toml")),
        None => None,
    }
}

/// `pst-server.toml` in the configuration directory that the desktop
/// player uses too, so that both can run on one host; `None` when the
/// platform has none. The directory comes from the environment, so
/// success is not promised here; what is answered for each directory is
/// [`server_config_path_from`].
pub fn default_config_path() -> (r: Option<PathBuf>)
    ensures
        r matches Some(p) ==> exists|d: PathBuf| p == joined_path(d, "pst-server.toml"@),
{
    server_config_path_from(project_config_dir())
}

} // verus!
