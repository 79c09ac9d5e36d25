//! What each backend asks of the exporter.

use vstd::prelude::*;

verus! {

/// The choices that a backend makes for the exporter.
pub trait ExportBackendConfig {
    /// Whether pointers are rendered with their pointee type.
    spec fn typed_pointers_spec(&self) -> bool;

    /// Whether pointers are rendered with their pointee type.
    fn typed_pointers(&self) -> (r: bool)
        ensures
            r == self.typed_pointers_spec(),
    ;
}

/// Export for the PTX backend, which takes opaque pointers.
#[derive(Clone, Copy, Debug)]
pub struct PtxExportConfig;

/// Export for libNVVM, which takes typed pointers on targets before Blackwell.
#[derive(Clone, Copy, Debug)]
pub struct NvvmExportConfig {
    pub typed_pointers: bool,
}

impl Default for NvvmExportConfig {
    /// Opaque pointers.
    fn default() -> (r: Self)
        ensures
            !r.typed_pointers,
    {
        NvvmExportConfig { typed_pointers: false }
    }
}

impl ExportBackendConfig for PtxExportConfig {
    open spec fn typed_pointers_spec(&self) -> bool {
        false
    }

    fn typed_pointers(&self) -> (r: bool) {
        false
    }
}

impl ExportBackendConfig for NvvmExportConfig {
    open spec fn typed_pointers_spec(&self) -> bool {
        self.typed_pointers
    }

    fn typed_pointers(&self) -> (r: bool) {
        self.typed_pointers
    }
}

} // verus!
