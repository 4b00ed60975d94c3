//! The decisions behind each command; reading the disk and making links is
//! left to the caller, which hands in what it found.
pub mod clean;
pub mod completions;
pub mod global;
pub mod init;
pub mod install;
pub mod install_list;
pub mod local;
pub mod uninstall;
pub mod versions;
