//! Every symbol is an identifier.

use crate::globals::{lower_global_alloc, DeviceState, SharedState};
use crate::ir::{Inst, MirGlobalAllocOp, RewriteView};
use crate::laws::shared::{lower_shared_use, Pools, SharedStep};
use crate::laws::symbols::numbered_symbols_are_identifiers;
use crate::text::is_identifier;
use crate::types::TypeTable;
use vstd::prelude::*;

verus! {

/// Every symbol in the map is an identifier.
pub open spec fn symbols_are_identifiers(table: Map<Seq<char>, Seq<char>>) -> bool {
    forall|key: Seq<char>| #[trigger] table.contains_key(key) ==> is_identifier(table[key])
}

/// The pools that have been computed go by identifiers.
pub open spec fn pools_are_identifiers(pools: Pools) -> bool {
    forall|kernel: Seq<char>| #[trigger]
        pools.contains_key(kernel) ==> is_identifier(pools[kernel].0)
}

/// Every symbol that a rewrite declares or takes the address of is an identifier.
pub open spec fn rewrite_has_identifiers(r: RewriteView) -> bool {
    &&& r.global matches Some(g) ==> is_identifier(g.symbol)
    &&& forall|i: int|
        0 <= i < r.ops.len() ==> ((#[trigger] r.ops[i]) matches Inst::AddressOf { symbol, .. }
            ==> is_identifier(symbol))
}

/// Lowering a use of shared memory enters identifiers only, and its rewrite names identifiers
/// only, if those in the table and those of the pools are.
pub proof fn shared_symbols_stay_identifiers(step: SharedStep, pools: Pools, state: SharedState)
    requires
        symbols_are_identifiers(state.table.keys),
        symbols_are_identifiers(state.table.pools),
        pools_are_identifiers(pools),
    ensures
        ({
            let (result, after) = lower_shared_use(step, pools, state);
            &&& symbols_are_identifiers(after.table.keys)
            &&& symbols_are_identifiers(after.table.pools)
            &&& result matches Ok(r) ==> rewrite_has_identifiers(r)
        }),
{
    numbered_symbols_are_identifiers(state.next);
}

/// Lowering a global allocation enters identifiers only, and its rewrite names identifiers
/// only, if those in the table are.
pub proof fn device_symbols_stay_identifiers(
    ctx: TypeTable,
    op: MirGlobalAllocOp,
    state: DeviceState,
)
    requires
        symbols_are_identifiers(state.table),
    ensures
        ({
            let (result, after) = lower_global_alloc(ctx, op, state);
            &&& symbols_are_identifiers(after.table)
            &&& result matches Ok(r) ==> rewrite_has_identifiers(r)
        }),
{
    numbered_symbols_are_identifiers(state.next);
}

} // verus!
