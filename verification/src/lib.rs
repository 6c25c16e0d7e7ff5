//! A minimal static-file HTTP/1.1 server core: argument reading, request
//! parsing, response building and the pairing of jobs with idle workers.

pub mod configuration;
pub mod http;
pub mod pattern;
pub mod scheduler;
pub mod text;
