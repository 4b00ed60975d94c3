//! A manager for installed runtime versions: version parsing and ordering,
//! resolution of partial version requests, project pin files, and the
//! decisions behind alias and pointer symlinks.
pub mod text;
pub mod version;
pub mod input_version;
pub mod log;
pub mod config;
pub mod alias;
pub mod version_file;
pub mod remote_ruby_index;
pub mod shell;
pub mod commands;
