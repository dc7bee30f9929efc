//! Program loading: interpreter scripts, ELF images and the initial user
//! stack.
pub mod elf;
pub mod header;
pub mod script;
pub mod stack;
