//! A generated symbol is never handed out twice, whichever maps the allocations enter.

use crate::address_space;
use crate::error::LowerCause;
use crate::globals::{
    global_block, lower_shared_alloc, make_device_global, make_shared_global, shared_alloc_known,
    shared_alloc_shape, shared_symbol, DeviceState, SharedState,
};
use crate::ir::{GlobalVar, MirSharedAllocOp, OpSite};
use crate::laws::shared::shared_spent;
use crate::laws::symbols::{address_symbol, device_symbols_distinct, shared_symbols_distinct};
use crate::types::{TypeId, TypeTable};
use vstd::prelude::*;

verus! {

/// Everything that goes into the making of a global for static shared memory.
pub struct SharedCreation {
    pub ctx: TypeTable,
    pub site: OpSite,
    pub elem: TypeId,
    pub size: u64,
    pub alignment: u64,
    pub key: Option<Seq<char>>,
    pub state: SharedState,
}

impl SharedCreation {
    /// The global, and the state that its making leaves behind.
    pub open spec fn made(self) -> (Result<GlobalVar<Seq<char>>, LowerCause>, SharedState) {
        make_shared_global(
            self.ctx,
            self.site,
            self.elem,
            self.size,
            self.alignment,
            self.key,
            self.state,
        )
    }
}

/// Two globals for static shared memory have different symbols, whatever their types, keys,
/// modules and maps, if the later one is made with a number that the earlier one left. A
/// key is entered with the new symbol even if it had another, and without a key nothing is
/// entered.
pub proof fn created_shared_symbols_differ(earlier: SharedCreation, later: SharedCreation)
    requires
        earlier.made().0 is Ok,
        later.made().0 is Ok,
        earlier.state.next < usize::MAX,
        earlier.made().1.next <= later.state.next,
    ensures
        earlier.made().0->Ok_0.symbol != later.made().0->Ok_0.symbol,
        later.made().1.table.pools == later.state.table.pools,
        later.made().1.table.keys == match later.key {
            Some(key) => later.state.table.keys.insert(key, later.made().0->Ok_0.symbol),
            None => later.state.table.keys,
        },
{
    shared_symbols_distinct(earlier.state.next, later.state.next);
}

/// Everything that goes into the making of a device global.
pub struct DeviceCreation {
    pub ctx: TypeTable,
    pub site: OpSite,
    pub key: Seq<char>,
    pub ty: TypeId,
    pub alignment: u64,
    pub address_space: u32,
    pub state: DeviceState,
}

impl DeviceCreation {
    /// The global, and the state that its making leaves behind.
    pub open spec fn made(self) -> (Result<GlobalVar<Seq<char>>, LowerCause>, DeviceState) {
        make_device_global(
            self.ctx,
            self.site,
            self.key,
            self.ty,
            self.alignment,
            self.address_space,
            self.state,
        )
    }
}

/// Two device globals outside constant memory have different symbols, whatever their types,
/// keys, modules and maps, and even if the keys are the same, if the later one is made with
/// a number that the earlier one left. The key is entered with the new symbol even if it had
/// another.
pub proof fn created_device_symbols_differ(earlier: DeviceCreation, later: DeviceCreation)
    requires
        earlier.address_space != address_space::CONSTANT,
        later.address_space != address_space::CONSTANT,
        earlier.made().0 is Ok,
        later.made().0 is Ok,
        earlier.state.next < usize::MAX,
        earlier.made().1.next <= later.state.next,
    ensures
        earlier.made().0->Ok_0.symbol != later.made().0->Ok_0.symbol,
        later.made().1.table == later.state.table.insert(
            later.key,
            later.made().0->Ok_0.symbol,
        ),
{
    device_symbols_distinct(earlier.state.next, later.state.next);
}

/// Making a global spends at most one number, whether or not it succeeds.
pub proof fn creations_spend_one_number(shared: SharedCreation, device: DeviceCreation)
    requires
        shared.state.next < usize::MAX,
        device.state.next < usize::MAX,
    ensures
        shared.state.next <= shared.made().1.next <= shared.state.next + 1,
        device.state.next <= device.made().1.next <= device.state.next + 1,
        shared.made().0 is Ok ==> shared.made().1.next == shared.state.next + 1,
        device.made().0 is Ok && device.address_space != address_space::CONSTANT
            ==> device.made().1.next == device.state.next + 1,
{
}

/// A static shared allocation without a key, if its type converts and it has a place, always
/// comes with a new global and enters nothing, whatever the map holds. No earlier allocation
/// got its symbol, with a key or without, from this map or another; of a map in which an
/// earlier allocation found its key, no symbol may have been one still to be handed out.
pub proof fn keyless_allocation_is_new(
    earlier_ctx: TypeTable,
    earlier: MirSharedAllocOp,
    earlier_state: SharedState,
    ctx: TypeTable,
    op: MirSharedAllocOp,
    state: SharedState,
)
    requires
        op.alloc_key is None,
        shared_alloc_shape(op) matches Ok(shape) && ctx.lowered(shape.0) is Ok,
        global_block(op.site) is Ok,
        lower_shared_alloc(earlier_ctx, earlier, earlier_state).0 is Ok,
        shared_alloc_known(earlier, earlier_state.table) ==> shared_spent(earlier_state),
        earlier_state.next < usize::MAX,
        lower_shared_alloc(earlier_ctx, earlier, earlier_state).1.next <= state.next,
    ensures
        lower_shared_alloc(ctx, op, state).1.table == state.table,
        lower_shared_alloc(ctx, op, state).0 matches Ok(r) && r.global is Some && address_symbol(r)
            != address_symbol(lower_shared_alloc(earlier_ctx, earlier, earlier_state).0->Ok_0),
{
    if shared_alloc_known(earlier, earlier_state.table) {
        let key = earlier.alloc_key->Some_0@;
        assert(earlier_state.table.keys[key] != shared_symbol(state.next));
    } else {
        shared_symbols_distinct(earlier_state.next, state.next);
    }
}

} // verus!
