//! Verified core of a line-based chat relay.
//!
//! A server accepts many concurrent stream connections, assigns each
//! its transport address as canonical identity, and broadcasts
//! submitted lines to every connection; a client opens one
//! connection, throttles its outbound sends through a sliding-window
//! rate limiter, and reconciles its optimistic local echo with the
//! server's reflection of its own messages.
//!
//! The library holds everything that decides: the wire-frame codec,
//! the per-connection state machine, the display-name registry, the
//! bounded broadcast fan-out, the rate limiter, the self-echo filter
//! and the rendering of display text. The surrounding process only
//! moves bytes, reads clocks and appends to screens and files.

pub mod broadcast;
pub mod client;
pub mod codec;
pub mod handler;
pub mod limiter;
pub mod msg;
pub mod registry;
pub mod render;
pub mod room;
pub mod setup;
pub mod text;
