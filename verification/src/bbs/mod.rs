pub mod ch2;
pub mod encoding;
pub mod parse;
pub mod post_result;
pub mod router;
pub mod shitaraba;
pub mod types;
pub mod url;
