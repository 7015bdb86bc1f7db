pub mod client;
pub mod jsonrpc;
pub mod playlist;
pub mod types;
pub mod url;
pub mod yp;
