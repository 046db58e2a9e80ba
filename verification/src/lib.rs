pub mod base;
pub mod cli;
pub mod firehose;
pub mod image;
pub mod job;
pub mod num;
pub mod sahara;
pub mod storage;
pub mod text;
pub mod transport;
pub mod wire;
pub mod xml;
