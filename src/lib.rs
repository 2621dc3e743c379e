//! Command-line argument parsing and validation for a client front end:
//! a server URL normalizer, a proxy address parser and the token scanner
//! that assembles a validated configuration.

pub mod text;
pub mod server_url;
pub mod proxy_addr;
pub mod config;
pub mod parse;
pub mod laws;
