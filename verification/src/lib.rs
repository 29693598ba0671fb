pub mod client;
pub mod exchange;
pub mod header;
pub mod log;
pub mod logging;
pub mod names;
pub mod originator;
pub mod request;
pub mod user_agent;
