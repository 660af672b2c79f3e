//! The deletion of threads: a request for a thread and all that it spawned, and
//! the deletion of one thread from local storage.
pub mod local;
pub mod request;
