//! Skills that a backend offers as resources.
pub mod catalog;
pub mod listing;
pub mod reading;
