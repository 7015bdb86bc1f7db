pub mod errors;
pub mod http;
