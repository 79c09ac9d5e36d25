//! The exporter of LLVM text.

pub mod config;
pub mod state;
pub mod typed_ptr;
