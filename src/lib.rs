//! A tiny staging area: an ordered, duplicate-free list of file paths that is
//! kept in a JSON file between runs.
pub mod cli;
pub mod config;
pub mod error;
pub mod json;
pub mod paths;

pub use cli::{command_of, parse_args, Command, Flags};
pub use config::{load_config, stage_file, Config, Stored};
pub use error::{Error, Result, WithMessage};
pub use paths::{config_location, config_path_in, default_config_path};
