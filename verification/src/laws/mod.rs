//! What holds of the library across its functions.

pub mod callable;
pub mod creation;
pub mod device;
pub mod device_meaning;
pub mod export;
pub mod export_meaning;
pub mod identifiers;
pub mod machine;
pub mod memory_meaning;
pub mod numerals;
pub mod rewrite;
pub mod shared;
pub mod shared_meaning;
pub mod symbols;
pub mod tables;
pub mod vector_meaning;
