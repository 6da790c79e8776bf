//! What the modules of the federation decide without waiting.

pub mod dummy;
pub mod mint;
