//! Registration of an exec-server for remote use.
pub mod noise;
pub mod registry;
pub mod serving;
