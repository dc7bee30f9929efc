//! Block devices: partition tables.
pub mod mbr;
