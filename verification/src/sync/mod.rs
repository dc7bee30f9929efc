//! Synchronisation helpers.
pub mod arcswap;
