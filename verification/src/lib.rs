//! Line-oriented text search: the lines of a text that contain a query,
//! compared exactly or after case folding, together with the run
//! configuration that selects between the two.

pub mod config;
pub mod fold;
pub mod run;
pub mod search;
pub mod text;

pub use config::{Argument, Config, ConfigError};
pub use run::{run, IoCause, RuntimeError};
pub use search::{filter_lines, search, search_insensitive, Mode};
