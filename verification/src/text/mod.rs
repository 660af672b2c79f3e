//! Text handling shared by every module: character classes, slicing, searching,
//! splitting, joining and number syntax.
//!
//! A text is modelled as the sequence of its characters, and the executable
//! functions work on slices of characters.
pub mod chars;
pub mod number;
pub mod search;
pub mod split;
