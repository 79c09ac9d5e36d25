//! Lowering of GPU memory operations to LLVM form, and the typed-pointer part of
//! the LLVM text exporter.

pub mod address_space;
pub mod error;
pub mod export;
pub mod globals;
pub mod ir;
pub mod laws;
pub mod memory;
pub mod symbols;
pub mod text;
pub mod types;
pub mod vmem;
