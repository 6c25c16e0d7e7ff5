//! The server's configuration and the reading of it from the command line.

pub mod config;
pub mod util;

pub use config::Config;
pub use config::ConfigView;
