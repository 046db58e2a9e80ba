pub mod device;
pub mod diag;
pub mod error;
