pub mod error;
pub mod protocol;
pub mod session;
