//! Exporter state and kernel bookkeeping.

use crate::ir::{BlockId, ValueId};
use crate::text::{decimal, decimal_text, has_prefix};
use crate::types::TypeTable;
use std::collections::HashMap;
use vstd::hash_map::StringHashMap;
use vstd::prelude::*;
use vstd::string::*;

verus! {

/// The predecessors of each block, with the values that each passes on. PHI nodes are made
/// from it.
pub type PredecessorMap = HashMap<BlockId, Vec<(BlockId, Vec<ValueId>)>>;

/// The cluster dimensions of a kernel.
#[derive(Debug)]
pub struct KernelClusterConfig {
    pub name: String,
    pub dim_x: u32,
    pub dim_y: u32,
    pub dim_z: u32,
}

/// The launch bounds of a kernel; `min_blocks` is `None` if it was not given.
#[derive(Debug)]
pub struct KernelLaunchBounds {
    pub name: String,
    pub max_threads: u32,
    pub min_blocks: Option<u32>,
}

/// A kernel, for backends that annotate every one.
#[derive(Debug)]
pub struct KernelInfo {
    pub name: String,
}

/// What the exporter keeps while it writes one module.
pub struct ModuleExportState<'a> {
    pub ctx: &'a TypeTable,
    /// Whether a convergent operation was written, so that its attributes are needed.
    pub convergent_used: bool,
    /// Kernels with cluster dimensions.
    pub cluster_kernels: Vec<KernelClusterConfig>,
    /// Kernels with launch bounds.
    pub launch_bounds_kernels: Vec<KernelLaunchBounds>,
    /// All kernels, if the backend wants them.
    pub all_kernels: Vec<KernelInfo>,
    /// Whether the backend wants all kernels.
    pub track_all_kernels: bool,
    /// Whether kernel definitions are marked `ptx_kernel`.
    pub emit_ptx_kernel_keyword: bool,
    /// Device functions that must be kept.
    pub device_functions: Vec<String>,
    /// Whether pointers are rendered as `i8 addrspace(N)*`.
    pub typed_pointers: bool,
    /// How many names for pointer casts have been handed out.
    pub ptr_cast_counter: usize,
    /// The pointer type of each function, as text.
    pub fn_ptr_types: StringHashMap<String>,
    /// The value type of each global, as text, and its address space.
    pub global_value_types: StringHashMap<(String, u32)>,
}

/// The name of the pointer cast numbered `n`.
pub open spec fn ptr_cast_name(n: usize) -> Seq<char> {
    "%__ptrcast."@ + decimal(n as nat)
}

/// Whether an intrinsic is executed by the threads of a warp or block together: barriers,
/// mbarriers, shuffles, votes and asynchronous bulk copies, told by the beginning of their
/// names.
pub open spec fn is_convergent(name: Seq<char>) -> bool {
    ||| "llvm.nvvm.barrier"@.is_prefix_of(name)
    ||| "llvm.nvvm.mbarrier"@.is_prefix_of(name)
    ||| "llvm.nvvm.shfl"@.is_prefix_of(name)
    ||| "llvm.nvvm.vote"@.is_prefix_of(name)
    ||| "llvm.nvvm.cp.async.bulk"@.is_prefix_of(name)
}

impl<'a> ModuleExportState<'a> {
    /// The state before anything has been written.
    pub fn new(
        ctx: &'a TypeTable,
        track_all_kernels: bool,
        emit_ptx_kernel_keyword: bool,
        typed_pointers: bool,
    ) -> (r: Self)
        ensures
            r.ctx == ctx,
            !r.convergent_used,
            r.cluster_kernels@.len() == 0,
            r.launch_bounds_kernels@.len() == 0,
            r.all_kernels@.len() == 0,
            r.track_all_kernels == track_all_kernels,
            r.emit_ptx_kernel_keyword == emit_ptx_kernel_keyword,
            r.device_functions@.len() == 0,
            r.typed_pointers == typed_pointers,
            r.ptr_cast_counter == 0,
            r.fn_ptr_types@ == Map::<Seq<char>, String>::empty(),
            r.global_value_types@ == Map::<Seq<char>, (String, u32)>::empty(),
    {
        ModuleExportState {
            ctx,
            convergent_used: false,
            cluster_kernels: Vec::new(),
            launch_bounds_kernels: Vec::new(),
            all_kernels: Vec::new(),
            track_all_kernels,
            emit_ptx_kernel_keyword,
            device_functions: Vec::new(),
            typed_pointers,
            ptr_cast_counter: 0,
            fn_ptr_types: StringHashMap::new(),
            global_value_types: StringHashMap::new(),
        }
    }

    /// Hands out a name for a pointer cast that no earlier cast of the module has.
    pub fn fresh_ptr_cast_name(&mut self) -> (r: String)
        requires
            old(self).ptr_cast_counter < usize::MAX,
        ensures
            r@ == ptr_cast_name(old(self).ptr_cast_counter),
            *final(self) == (ModuleExportState {
                ptr_cast_counter: (old(self).ptr_cast_counter + 1) as usize,
                ..*old(self)
            }),
    {
        let n = self.ptr_cast_counter;
        self.ptr_cast_counter = n + 1;
        "%__ptrcast.".to_owned().concat(decimal_text(n as u64).as_str())
    }

    /// Whether a function is a known convergent intrinsic. Such a call must be marked, or
    /// it could be duplicated into divergent branches.
    pub fn is_convergent_intrinsic(name: &str) -> (r: bool)
        ensures
            r == is_convergent(name@),
    {
        has_prefix(name, "llvm.nvvm.barrier") || has_prefix(name, "llvm.nvvm.mbarrier")
            || has_prefix(name, "llvm.nvvm.shfl") || has_prefix(name, "llvm.nvvm.vote")
            || has_prefix(name, "llvm.nvvm.cp.async.bulk")
    }
}

} // verus!
