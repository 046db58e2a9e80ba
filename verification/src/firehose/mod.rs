pub mod client;
pub mod command;
pub mod error;
pub mod response;
