//! A terminal-facing support library: logging, templated messages,
//! argument scanning, interactive answer rules, configuration values, and
//! a registry of progress bars addressed by handles.

pub mod args;
pub mod config;
pub mod errors;
pub mod interactive;
pub mod logger;
pub mod numtext;
pub mod progress;
pub mod strmap;
pub mod templates;
pub mod term;
pub mod text;

pub use config::Config;
pub use errors::{auth_error, config_error, network_error, unknown_error, CliError};
pub use logger::{log_debug, log_error, log_info, log_success, log_warn};
pub use progress::{create_progress_bar, finish_progress, update_progress};
pub use templates::{add_template, get_template, remove_template};

use vstd::prelude::*;

verus! {

pub const VERSION: &'static str = "0.1.0";

pub const NAME: &'static str = "cli_core";

} // verus!
