pub mod error;
pub mod patch;
pub mod rawprogram;
pub mod sparse;
