//! Building blocks of a PeerCast viewer with BBS (shitaraba / 2ch-compatible)
//! support: text utilities, parsers, URL handling and the decisions of the
//! HTTP relay server.

pub mod bbs;
pub mod cli;
pub mod config;
pub mod favorites;
pub mod peercast;
pub mod server;
pub mod single_instance;
pub mod snapshot;
pub mod text;
pub mod util;
