//! Tasks: process ids, waiting for children, cloning, and the bookkeeping
//! of processes, process groups and sessions.
pub mod clone;
pub mod pid;
pub mod wait;
pub mod process_list;
pub mod run;
