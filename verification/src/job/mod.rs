pub mod error;
pub mod executor;
pub mod info;
pub mod jobs;
pub mod raw_program;
