//! Files of a directory tree, sorted into `year/month` or `year/month/day`
//! directories by one of their timestamps.
//!
//! The library decides and does not touch the filesystem: it reads the
//! command line, tells which directory to read next, and says for each file
//! found there where it is to go. Reading directories and moving files is
//! left to the caller.

pub mod calendar;
pub mod config;
pub mod metadata;
pub mod organizer;
pub mod paths;
pub mod planner;
pub mod text;

pub use config::{Config, ConfigError, Mode, SortType};
pub use metadata::MetadataError;
pub use organizer::run;
