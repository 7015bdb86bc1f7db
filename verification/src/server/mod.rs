pub mod auto_record;
pub mod config;
pub mod error;
pub mod handlers;
pub mod hls;
pub mod recording;
pub mod serve;
pub mod stream_proxy;
