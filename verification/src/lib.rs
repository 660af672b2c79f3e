//! The decisions of an agent's runtime that need no I/O: how its traffic is routed,
//! how its exec-servers are registered and reached over an encrypted relay, what
//! its skills and plugin scripts are, how its threads are kept and deleted, and
//! what it shows of its work.
//!
//! Every function is a computation or a step of a state machine; the caller does
//! the I/O that a step asks for and hands the outcome back. What the library takes
//! on trust of other crates and of the standard library stands in [`outside`].
pub mod backend_skills;
pub mod client_transport;
pub mod error;
pub mod live_thread;
pub mod mcp_channel;
pub mod noise_channel;
pub mod noise_relay;
pub mod osc_text;
pub mod outbound_proxy;
pub mod outside;
pub mod plugin_script;
pub mod remote;
pub mod seatbelt_denials;
pub mod tab_status;
pub mod text;
pub mod text_map;
pub mod thread_delete;
pub mod upstream_proxy;
