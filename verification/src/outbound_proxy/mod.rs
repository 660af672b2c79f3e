//! Conservative outbound proxy selection for resolver-aware clients.
//!
//! In the automatic mode platform discovery is tried first, explicit environment
//! proxies come next, and the last fallback is to leave the client as it is.
pub mod cache;
pub mod no_proxy;
pub mod origin;
pub mod proxy_list;
pub mod route;
