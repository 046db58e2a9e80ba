pub mod crc;
pub mod error;
pub mod gpt;
pub mod partition;
