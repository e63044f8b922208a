//! Validation of required environment variables, and typed access to the
//! values that passed.
//!
//! The environment is handed in as a list of name/value pairs, so that
//! validation is a function of its inputs alone.

pub mod config;
pub mod entries;
pub mod error;
pub mod text;
pub mod validate;

pub use config::{EnvConfig, ParseError};
pub use error::ConfigError;
pub use validate::validate_env_vars;
