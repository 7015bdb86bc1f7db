//! Where the configuration lives, and its schema.

pub mod schema;

use vstd::prelude::*;
use std::path::PathBuf;
use crate::util::errors::AppError;

verus! {

#[verifier::external_type_specification]
#[verifier::external_body]
pub struct ExPathBuf(PathBuf);

/// `directories::ProjectDirs::from("io.github", "pasta04", "PSTPlayer")`
/// and its `config_dir()`. Nothing is claimed of the result: it depends on
/// the platform and the environment (home directory, `XDG_CONFIG_HOME`).
#[verifier::external_body]
pub(crate) fn project_config_dir() -> (r: Option<PathBuf>) {
    directories::ProjectDirs::from("io.github", "pasta04", "PSTPlayer").map(|d| d.config_dir().to_path_buf())
}

/// What `Path::join` gives for a base path and a name.
pub uninterp spec fn joined_path(base: PathBuf, name: Seq<char>) -> PathBuf;

/// `Path::join`. Claimed: its result is the name `joined_path` of the base
/// and the name; it depends on those alone (the separator is fixed when
/// the program is built). What the joined path holds is not stated.
#[verifier::external_body]
pub(crate) fn path_join(base: &PathBuf, name: &str) -> (r: PathBuf)
    ensures
        r == joined_path(*base, name@),
{
    base.join(name)
}

/// The answer of [`config_dir`] for what the platform gave: the
/// directory itself, or `Decode` when there is none.
pub fn config_dir_from(found: Option<PathBuf>) -> (r: Result<PathBuf, AppError>)
    ensures
        found matches Some(d) ==> r == Ok::<PathBuf, AppError>(d),
        found is None ==> (r matches Err(e) && e matches AppError::Decode(m) && m@
            == "could not resolve project directory"@),
{
    match found {
        Some(d) => Ok(d),
        None => Err(AppError::Decode(String::from_str("could not resolve project directory"))),
    }
}

/// The answer of [`config_path`] for what [`config_dir`] gave: an error
/// is passed on as it is; a directory gets `config.toml` joined to it.
pub fn config_path_from(dir: Result<PathBuf, AppError>) -> (r: Result<PathBuf, AppError>)
    ensures
        dir matches Err(e) ==> r == Err::<PathBuf, AppError>(e),
        dir matches Ok(d) ==> r == Ok::<PathBuf, AppError>(joined_path(d, "config.toml"@)),
{
    match dir {
        Ok(d) => Ok(path_join(&d, "config.toml")),
        Err(e) => Err(e),
    }
}

/// The platform's configuration directory for PSTPlayer
/// (`%APPDATA%\pasta04\PSTPlayer\config\` on Windows,
/// `~/Library/Application Support/io.github.pasta04.PSTPlayer/` on macOS,
/// `${XDG_CONFIG_HOME:-~/.config}/pstplayer/` on Linux); `Decode` when the platform
/// has none. Which of the two comes depends on the environment; what is
/// answered for each is [`config_dir_from`].
pub fn config_dir() -> (r: Result<PathBuf, AppError>)
    ensures
        r matches Err(e) ==> (e matches AppError::Decode(m) && m@ == "could not resolve project directory"@),
{
    config_dir_from(project_config_dir())
}

/// `config.toml` in [`config_dir`] (see [`config_path_from`]).
pub fn config_path() -> (r: Result<PathBuf, AppError>)
    ensures
        r matches Err(e) ==> (e matches AppError::Decode(m) && m@ == "could not resolve project directory"@),
        r matches Ok(p) ==> exists|d: PathBuf| p == joined_path(d, "config.toml"@),
{
    config_path_from(config_dir())
}

} // verus!
