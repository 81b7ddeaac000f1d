//! What the library is for, stated of its results: each law relates what goes into an operation to
//! what comes out of it, for all inputs.

pub mod admission;
pub mod bridge;
pub mod control;
pub mod opening;
pub mod origin;
pub mod pty;
pub mod sessions;
pub mod stream;
pub mod target;
pub mod text;
pub mod views;
