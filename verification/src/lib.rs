//! Web terminal sessions for sandboxes.

pub mod admission;
pub mod bridge;
pub mod codec;
pub mod control;
pub mod envelope;
pub mod error;
pub mod events;
pub mod json;
pub mod laws;
pub mod opening;
pub mod origin;
pub mod pty;
pub mod sessions;
pub mod stream;
pub mod target;
pub mod text;
