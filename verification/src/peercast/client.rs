//! Choosing the PeerCast endpoint to talk to.

use vstd::prelude::*;
use crate::cli::CliArgs;
use crate::config::schema::PeerCastConfig;
use crate::peercast::types::{BasicAuth, PeerCastEndpoint};
use crate::peercast::types::base_url_of;
use crate::peercast::url::{UrlKind, parse, parse_spec};
use crate::util::errors::AppError;

verus! {

/// The credentials of `cfg` as a pair, when a non-empty user and a password
/// are both set.
pub open spec fn auth_of(cfg: PeerCastConfig) -> Option<(Seq<char>, Seq<char>)> {
    match cfg.auth_user {
        Some(u) => match cfg.auth_pass {
            Some(p) => if u@.len() > 0 {
                Some((u@, p@))
            } else {
                None
            },
            None => None,
        },
        None => None,
    }
}

pub open spec fn auth_view(a: Option<BasicAuth>) -> Option<(Seq<char>, Seq<char>)> {
    match a {
        Some(b) => Some((b.user@, b.pass@)),
        None => None,
    }
}

/// The saved Basic credentials, when a non-empty user and a password are
/// both set.
pub(crate) fn auth_from_cfg(cfg: &PeerCastConfig) -> (r: Option<BasicAuth>)
    ensures
        auth_view(r) == auth_of(*cfg),
{
    match (&cfg.auth_user, &cfg.auth_pass) {
        (Some(u), Some(p)) => if u.as_str().unicode_len() > 0 {
            Some(BasicAuth { user: u.clone(), pass: p.clone() })
        } else {
            None
        },
        _ => None,
    }
}

/// The host and port that a PeerCast URL points at (without credentials).
pub fn endpoint_for(url: &str) -> (r: Result<PeerCastEndpoint, AppError>)
    ensures
        match parse_spec(url@) {
            Ok(pv) => (r matches Ok(e) && e.host@ == pv.host && e.port == pv.port && e.auth is None),
            Err(m) => (r matches Err(AppError::InvalidUrl(x)) && x@ == m),
        },
{
    match parse(url) {
        Ok(p) => Ok(p.endpoint),
        Err(e) => Err(e),
    }
}

/// Like [`endpoint_for`], with the saved Basic credentials of `cfg`
/// attached.
pub fn endpoint_for_with_auth(url: &str, cfg: &PeerCastConfig) -> (r: Result<PeerCastEndpoint, AppError>)
    ensures
        match parse_spec(url@) {
            Ok(pv) => (r matches Ok(e) && e.host@ == pv.host && e.port == pv.port && auth_view(e.auth)
                == auth_of(*cfg)),
            Err(m) => (r matches Err(AppError::InvalidUrl(x)) && x@ == m),
        },
{
    match parse(url) {
        Ok(p) => Ok(PeerCastEndpoint { host: p.endpoint.host, port: p.endpoint.port, auth: auth_from_cfg(cfg) }),
        Err(e) => Err(e),
    }
}

/// The endpoint to talk to: the host and port of a CLI URL that parses,
/// else the saved settings; the credentials always come from the settings.
pub fn resolve_endpoint(cli: &CliArgs, cfg: &PeerCastConfig) -> (r: PeerCastEndpoint)
    ensures
        auth_view(r.auth) == auth_of(*cfg),
        match cli.url {
            Some(u) => match parse_spec(u@) {
                Ok(pv) => r.host@ == pv.host && r.port == pv.port,
                Err(_) => r.host@ == cfg.host@ && r.port == cfg.port,
            },
            None => r.host@ == cfg.host@ && r.port == cfg.port,
        },
{
    if let Some(url) = &cli.url {
        if let Ok(parsed) = parse(url.as_str()) {
            return PeerCastEndpoint {
                host: parsed.endpoint.host,
                port: parsed.endpoint.port,
                auth: auth_from_cfg(cfg),
            };
        }
    }
    PeerCastEndpoint { host: cfg.host.clone(), port: cfg.port, auth: auth_from_cfg(cfg) }
}


/// How the stream URL of a user-supplied PeerCast URL is found.
#[derive(Debug, Clone)]
pub enum StreamPlan {
    /// The URL is the stream itself.
    Direct(String),
    /// The stream URL is in the playlist at this URL.
    Playlist(String),
}

/// A `stream` URL is used as it is; a `pls` URL is the playlist to read;
/// a `play.html` URL leads to the playlist `{base}/pls/{id}` of its node.
pub fn stream_plan(url: &str) -> (r: Result<StreamPlan, AppError>)
    ensures
        match parse_spec(url@) {
            Ok(pv) => match pv.kind {
                UrlKind::Stream => (r matches Ok(StreamPlan::Direct(u)) && u@ == url@),
                UrlKind::Playlist => (r matches Ok(StreamPlan::Playlist(u)) && u@ == url@),
                UrlKind::PlayHtml => (r matches Ok(StreamPlan::Playlist(u)) && u@ == base_url_of(pv.host, pv.port)
                    + "/pls/"@ + pv.channel_id),
            },
            Err(m) => (r matches Err(AppError::InvalidUrl(x)) && x@ == m),
        },
{
    let p = parse(url)?;
    match p.kind {
        UrlKind::Stream => Ok(StreamPlan::Direct(String::from_str(url))),
        UrlKind::Playlist => Ok(StreamPlan::Playlist(String::from_str(url))),
        UrlKind::PlayHtml => {
            let mut u = p.endpoint.base_url();
            u.append("/pls/");
            u.append(p.channel_id.as_str());
            Ok(StreamPlan::Playlist(u))
        },
    }
}

} // verus!
