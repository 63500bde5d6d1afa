//! Sound.
pub mod volume;
