//! Core of a completion-port based asynchronous I/O reactor.
//!
//! The kernel's completion-notification primitive is modeled explicitly: every
//! decision the reactor makes (one-time creation, caching of a failed
//! creation, registration of sockets under distinct keys, single-shot and
//! batched draining, refcount-gated dispatcher lifetime) is verified here.
//! The platform binding that actually invokes the kernel lives outside the
//! library and feeds results in as plain values.

pub mod dispatch;
pub mod events;
pub mod port;
pub mod reactor;
