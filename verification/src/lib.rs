//! Kewr Panel: the decisions behind a system monitoring dashboard, with
//! their contracts.  Reading the machine, running commands and touching
//! the file system happen outside this crate; everything here works on
//! the values those steps produce.

pub mod text;
pub mod path;
pub mod config;
pub mod file_manager;
pub mod probe;
pub mod database;
pub mod node;
pub mod pm2;
pub mod permissions;
pub mod system;
pub mod install;
