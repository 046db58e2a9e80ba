pub mod args;
pub mod devices;
pub mod output;
