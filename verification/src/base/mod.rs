pub mod error;
pub mod event;
pub mod state;
pub mod types;
pub mod util;
pub mod protocol;
pub mod session;
