//! Every rewrite is in SSA form and fits the operation that it replaces.

use crate::globals::{
    lower_extern_shared, lower_global_alloc, lower_shared_alloc, DeviceState, SharedState,
};
use crate::ir::{
    MirExternSharedOp, MirGlobalAllocOp, MirSharedAllocOp, Operation, Replacement, Value,
};
use crate::memory::{lower_alloca, lower_load, lower_ptr_offset, lower_ref, lower_store};
use crate::types::TypeTable;
use crate::vmem::{lower_ld_global_v4_f32, LdGlobalV4F32Op};
use vstd::prelude::*;

verus! {

/// Loads, stores, stack slots and pointer arithmetic: each rewrite uses values only after
/// they are defined, gives a store no result and every other operation one, and makes no
/// global.
pub proof fn memory_rewrites_fit(ctx: TypeTable, op: Operation)
    ensures
        lower_store(op) matches Ok(r) ==> r.wf() && r.result_count() == 0 && r.global is None,
        lower_load(ctx, op) matches Ok(r) ==> r.wf() && r.result_count() == 1 && r.global is None,
        lower_alloca(ctx, op) matches Ok(r) ==> r.wf() && r.result_count() == 1 && r.global is None,
        lower_ref(op).wf() && lower_ref(op).result_count() == 1 && lower_ref(op).global is None,
        lower_ptr_offset(ctx, op) matches Ok(r) ==> r.wf() && r.result_count() == 1
            && r.global is None,
{
}

/// Allocations with a symbol: each rewrite uses values only after they are defined, and
/// gives the operation its one result.
pub proof fn symbol_rewrites_fit(
    ctx: TypeTable,
    static_op: MirSharedAllocOp,
    dynamic_op: MirExternSharedOp,
    global_op: MirGlobalAllocOp,
    shared: SharedState,
    pools: Map<Seq<char>, (Seq<char>, u64)>,
    device: DeviceState,
)
    ensures
        lower_shared_alloc(ctx, static_op, shared).0 matches Ok(r) ==> r.wf() && r.result_count()
            == 1,
        lower_extern_shared(dynamic_op, pools, shared.table.pools).0 matches Ok(r) ==> r.wf()
            && r.result_count() == 1,
        lower_global_alloc(ctx, global_op, device).0 matches Ok(r) ==> r.wf() && r.result_count()
            == 1,
{
}

/// The vectorised load: the rewrite uses values only after they are defined, makes no
/// global, and gives the operation as many results as it has, each a lane of its own.
pub proof fn vector_load_rewrite_fits(load: LdGlobalV4F32Op)
    requires
        load.wf(),
    ensures
        ({
            let r = lower_ld_global_v4_f32(load.op);
            &&& r.wf()
            &&& r.global is None
            &&& r.result_count() == load.op.result_types@.len()
            &&& r.replacement matches Replacement::Values(lanes) && forall|i: int, j: int|
                0 <= i < j < 4 ==> #[trigger] lanes[i] != #[trigger] lanes[j]
        }),
{
    let r = lower_ld_global_v4_f32(load.op);
    let lanes = r.replacement->Values_0;
    assert(forall|i: int| 0 <= i < 4 ==> #[trigger] lanes[i] == Value::ResultOf((i + 1) as usize));
}

} // verus!
