//! Signals: numbers and sets, dispositions, and the per-thread pending list
//! with its delivery decisions.
pub mod action;
pub mod frame;
pub mod list;
pub mod sigset;
