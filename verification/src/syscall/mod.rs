//! System call logic: argument checking and the decisions of the memory,
//! process and signal calls.
pub mod mm;
pub mod procops;
pub mod retval;
pub mod user;
