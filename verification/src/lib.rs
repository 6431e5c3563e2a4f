//! Verified core of a fake SMTP receiver.
//!
//! The crate models the protocol side of a test double for an SMTP
//! server: a command parser, a reply encoder, and the session state
//! machine that consumes parsed commands and raw body bytes.  The
//! surrounding network plumbing (sockets, worker threads, shutdown
//! signalling) is ordinary unverified code that feeds plain values
//! into these verified functions.

pub mod address;
pub mod command;
pub mod protocol;
pub mod reply;
pub mod state;
pub mod text;
