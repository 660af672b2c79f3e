//! Attribution of commands to the scripts of plugins, and the lifecycle events
//! of the processes that run them.
pub mod commands;
pub mod execution;
pub mod file_name;
pub mod interpreters;
pub mod resolve;
pub mod script;
pub mod tokens;
