//! Channel notifications of MCP servers, and the user messages that they become.
pub mod event;
pub mod notification;
pub mod xml;
