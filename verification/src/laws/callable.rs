//! Every function can be called on every input that it is meant for.

use crate::error::{invalid_key_message, LowerError};
use crate::export::state::ModuleExportState;
use crate::export::typed_ptr::{GepIndexAttr, Rendered};
use crate::globals::{
    convert_extern_shared_dc, convert_global_alloc_dc, convert_shared_alloc_dc,
    create_device_global, create_shared_global, get_or_create_extern_shared_global,
};
use crate::ir::{
    Attribute, MirExternSharedOp, MirGlobalAllocOp, MirSharedAllocOp, OpSite, Operation,
};
use crate::memory::{convert_alloca, convert_load, convert_ptr_offset, convert_ref, convert_store};
use crate::symbols::{
    DeviceGlobalsMap, DynamicSmemAlignmentMap, SharedGlobalsMap, SymbolCounters, SymbolMap,
};
use crate::text::{decimal_text, has_prefix};
use crate::types::{TypeId, TypeObj, TypeTable};
use crate::vmem::{convert_ld_global_v4_f32, LdGlobalV4F32Op};
use vstd::prelude::*;

verus! {

/// Whether `ty` is the place of a type in the table.
pub open spec fn is_listed(ctx: TypeTable, ty: TypeId) -> bool {
    ty.0 < ctx.types@.len()
}

/// Whether every type of the table is made of types of the table.
pub open spec fn is_closed(ctx: TypeTable) -> bool {
    forall|i: int|
        0 <= i < ctx.types@.len() ==> match (#[trigger] ctx.types@[i]).obj {
            TypeObj::Array { elem, .. } => is_listed(ctx, elem),
            TypeObj::Vector { elem, .. } => is_listed(ctx, elem),
            TypeObj::Struct { fields } => forall|k: int|
                0 <= k < fields@.len() ==> is_listed(ctx, #[trigger] fields@[k]),
            TypeObj::MirPtr(p) => is_listed(ctx, p.pointee),
            _ => true,
        }
}

proof fn lemma_closed_table(ctx: TypeTable)
    requires
        is_closed(ctx),
    ensures
        ctx.wf(),
{
    assert forall|ty: TypeId| #[trigger] ctx.has(ty) implies match ctx.obj(ty) {
        TypeObj::Array { elem, len } => ctx.has(elem),
        TypeObj::Vector { elem, len } => ctx.has(elem),
        TypeObj::Struct { fields } => forall|i: int|
            0 <= i < fields@.len() ==> ctx.has(#[trigger] fields@[i]),
        TypeObj::MirPtr(p) => ctx.has(p.pointee),
        TypeObj::Integer { width } => true,
        TypeObj::Other => true,
    } by {
        let record = ctx.types@[ty.0 as int];
        if let TypeObj::Struct { fields } = record.obj {
            assert forall|i: int| 0 <= i < fields@.len() implies ctx.has(
                #[trigger] fields@[i],
            ) by {
                assert(is_listed(ctx, fields@[i]));
            }
        }
    }
}

/// A store can always be lowered or refused; so can a pointer offset whose pointee is listed.
/// A load needs an operand and a listed result, an alloca a listed result and a closed table,
/// a reference an operand.
pub proof fn memory_operations_can_be_lowered(ctx: &TypeTable, op: &Operation)
    ensures
        call_requires(convert_store, (op,)),
        op.operands@.len() > 0 ==> call_requires(convert_ref, (op,)),
        op.operands@.len() > 0 && op.result_types@.len() > 0 && is_listed(*ctx, op.result_types@[0])
            ==> call_requires(convert_load, (ctx, op)),
        is_closed(*ctx) && op.result_types@.len() > 0 && is_listed(*ctx, op.result_types@[0])
            ==> call_requires(convert_alloca, (ctx, op)),
        (op.operands@.len() == 2 ==> (op.operands@[0].mir_pointer matches Some(p) ==> is_listed(
            *ctx,
            p.pointee,
        ))) ==> call_requires(convert_ptr_offset, (ctx, op)),
{
    if is_closed(*ctx) {
        lemma_closed_table(*ctx);
    }
}

/// A vectorised load needs an operand.
pub proof fn vector_loads_can_be_lowered(load: &LdGlobalV4F32Op)
    ensures
        load.op.operands@.len() > 0 ==> call_requires(convert_ld_global_v4_f32, (load,)),
{
}

/// Shared memory can always be lowered or refused, if the element type of an allocation is
/// listed.
pub proof fn shared_memory_can_be_lowered(
    ctx: &TypeTable,
    allocation: &MirSharedAllocOp,
    pointer: &MirExternSharedOp,
    site: &OpSite,
    shared_globals: &mut SharedGlobalsMap,
    counters: &mut SymbolCounters,
    alignments: &DynamicSmemAlignmentMap,
    elem: TypeId,
    size: u64,
    alignment: u64,
    key: Option<String>,
    kernel: &str,
)
    ensures
        (allocation.elem_type matches Some(Attribute::Type(ty)) ==> is_listed(*ctx, ty))
            ==> call_requires(
            convert_shared_alloc_dc,
            (ctx, allocation, shared_globals, counters),
        ),
        is_listed(*ctx, elem) ==> call_requires(
            create_shared_global,
            (ctx, site, shared_globals, counters, elem, size, alignment, key),
        ),
        call_requires(convert_extern_shared_dc, (pointer, shared_globals, alignments)),
        call_requires(
            get_or_create_extern_shared_global,
            (site, kernel, shared_globals, alignments, alignment),
        ),
{
}

/// A global allocation can always be lowered or refused, if its type is listed and, where
/// both attributes are there, so is the type of its result.
pub proof fn device_globals_can_be_lowered(
    ctx: &TypeTable,
    op: &MirGlobalAllocOp,
    site: &OpSite,
    device_globals: &mut DeviceGlobalsMap,
    counters: &mut SymbolCounters,
    key: &str,
    ty: TypeId,
    alignment: u64,
    address_space: u32,
)
    ensures
        ({
            &&& op.global_type matches Some(Attribute::Type(t)) ==> is_listed(*ctx, t)
            &&& op.result_type matches Some(t) ==> is_listed(*ctx, t)
            &&& op.result_type is None ==> op.global_key is None || op.global_type is None
                || !(op.global_key->Some_0 is Str) || !(op.global_type->Some_0 is Type)
        }) ==> call_requires(convert_global_alloc_dc, (ctx, op, device_globals, counters)),
        is_listed(*ctx, ty) ==> call_requires(
            create_device_global,
            (ctx, site, device_globals, counters, key, ty, alignment, address_space),
        ),
{
}

/// The exporter can write any cast while names are left, and look into any closed table.
pub proof fn exports_can_be_made<'a>(
    state: &mut ModuleExportState<'a>,
    looking: &ModuleExportState<'a>,
    value: &Rendered,
    pointee: &Rendered,
    addrspace: u32,
    name: &str,
    result: &str,
    output: &mut String,
    ty: TypeId,
    indices: &[GepIndexAttr],
)
    ensures
        old(state).ptr_cast_counter < usize::MAX ==> call_requires(
            ModuleExportState::fresh_ptr_cast_name,
            (state,),
        ),
        old(state).ptr_cast_counter < usize::MAX ==> call_requires(
            ModuleExportState::emit_ptr_cast_to,
            (state, value, pointee, addrspace, output),
        ),
        call_requires(
            ModuleExportState::emit_ptr_cast_to_i8,
            (state, name, pointee, addrspace, result, output),
        ),
        call_requires(ModuleExportState::is_convergent_intrinsic, (name,)),
        is_closed(*looking.ctx) && is_listed(*looking.ctx, ty) ==> call_requires(
            ModuleExportState::gep_result_elem_type,
            (looking, ty, indices),
        ),
{
    if is_closed(*looking.ctx) {
        lemma_closed_table(*looking.ctx);
    }
}

/// Texts, tables and failures take any input; only a type that is looked up must be listed.
pub proof fn tables_can_be_used(
    ctx: &TypeTable,
    ty: TypeId,
    map: &mut SymbolMap,
    shared: &mut SharedGlobalsMap,
    alignments: &mut DynamicSmemAlignmentMap,
    map_read: &SymbolMap,
    shared_read: &SharedGlobalsMap,
    alignments_read: &DynamicSmemAlignmentMap,
    key: String,
    symbol: String,
    name: &str,
    other: &str,
    n: u64,
    e: &LowerError,
)
    ensures
        is_listed(*ctx, ty) ==> call_requires(TypeTable::convert_type, (ctx, ty)),
        is_listed(*ctx, ty) ==> call_requires(TypeTable::mir_ptr_type, (ctx, ty)),
        call_requires(SymbolMap::get, (map_read, name)),
        call_requires(SymbolMap::contains_key, (map_read, name)),
        call_requires(SymbolMap::insert, (map, key, symbol)),
        call_requires(SharedGlobalsMap::get, (shared_read, name)),
        call_requires(SharedGlobalsMap::is_declared, (shared_read, name)),
        call_requires(SharedGlobalsMap::insert, (shared, key, symbol)),
        call_requires(SharedGlobalsMap::declare, (shared, key, symbol)),
        call_requires(DynamicSmemAlignmentMap::get, (alignments_read, name)),
        call_requires(DynamicSmemAlignmentMap::insert, (alignments, key, symbol, n)),
        call_requires(decimal_text, (n,)),
        call_requires(has_prefix, (name, other)),
        call_requires(LowerError::kind, (e,)),
        call_requires(LowerError::message, (e,)),
        call_requires(invalid_key_message, (name, other)),
{
}

} // verus!
