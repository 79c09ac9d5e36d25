//! Tables give back what was entered, types convert as recorded, and failures speak of what
//! failed.

use crate::error::{invalid_key_message, ErrorKind, LowerError};
use crate::symbols::{DynamicSmemAlignmentMap, SharedGlobalsMap, SymbolMap};
use crate::text::str_debug;
use crate::types::{MirPtrType, TypeId, TypeObj, TypeTable};
use vstd::prelude::*;

verus! {

/// A new map has no symbol for any key.
pub proof fn new_map_has_nothing(map: &SymbolMap, key: &str, got: Option<String>, found: bool)
    requires
        call_ensures(SymbolMap::new, (), *map),
        call_ensures(SymbolMap::get, (map, key), got),
        call_ensures(SymbolMap::contains_key, (map, key), found),
    ensures
        got is None,
        !found,
{
}

/// A map gives back the symbol entered last under a key. The other keys keep theirs.
pub proof fn map_gives_back(
    map: &mut SymbolMap,
    before: &SymbolMap,
    after: &SymbolMap,
    key: String,
    symbol: String,
    other: &str,
    had: Option<String>,
    found: bool,
    got: Option<String>,
)
    requires
        *before == *old(map),
        *after == *final(map),
        call_ensures(SymbolMap::insert, (map, key, symbol), ()),
        call_ensures(SymbolMap::get, (before, other), had),
        call_ensures(SymbolMap::get, (after, other), got),
        call_ensures(SymbolMap::contains_key, (after, other), found),
    ensures
        found == (got is Some),
        if other@ == key@ {
            got matches Some(s) && s@ == symbol@
        } else {
            match had {
                Some(s) => got matches Some(t) && t@ == s@,
                None => got is None,
            }
        },
{
}

/// A new map of shared memory has no symbol for any key, and no pool is declared.
pub proof fn new_shared_map_has_nothing(
    map: &SharedGlobalsMap,
    key: &str,
    got: Option<String>,
    declared: bool,
)
    requires
        call_ensures(SharedGlobalsMap::new, (), *map),
        call_ensures(SharedGlobalsMap::get, (map, key), got),
        call_ensures(SharedGlobalsMap::is_declared, (map, key), declared),
    ensures
        got is None,
        !declared,
{
}

/// A map of shared memory gives back the symbol entered last under a key. The other keys keep
/// theirs, and the pools are as they were.
pub proof fn shared_map_gives_back(
    map: &mut SharedGlobalsMap,
    before: &SharedGlobalsMap,
    after: &SharedGlobalsMap,
    key: String,
    symbol: String,
    other: &str,
    had: Option<String>,
    got: Option<String>,
    was_declared: bool,
    is_declared: bool,
)
    requires
        *before == *old(map),
        *after == *final(map),
        call_ensures(SharedGlobalsMap::insert, (map, key, symbol), ()),
        call_ensures(SharedGlobalsMap::get, (before, other), had),
        call_ensures(SharedGlobalsMap::get, (after, other), got),
        call_ensures(SharedGlobalsMap::is_declared, (before, other), was_declared),
        call_ensures(SharedGlobalsMap::is_declared, (after, other), is_declared),
    ensures
        is_declared == was_declared,
        if other@ == key@ {
            got matches Some(s) && s@ == symbol@
        } else {
            match had {
                Some(s) => got matches Some(t) && t@ == s@,
                None => got is None,
            }
        },
{
}

/// Declaring the pool of a kernel declares that pool and no other, and leaves the keys as
/// they were, those that read like the kernel among them.
pub proof fn declaring_declares_one_pool(
    map: &mut SharedGlobalsMap,
    before: &SharedGlobalsMap,
    after: &SharedGlobalsMap,
    kernel: String,
    symbol: String,
    other: &str,
    had: Option<String>,
    got: Option<String>,
    was_declared: bool,
    is_declared: bool,
)
    requires
        *before == *old(map),
        *after == *final(map),
        call_ensures(SharedGlobalsMap::declare, (map, kernel, symbol), ()),
        call_ensures(SharedGlobalsMap::get, (before, other), had),
        call_ensures(SharedGlobalsMap::get, (after, other), got),
        call_ensures(SharedGlobalsMap::is_declared, (before, other), was_declared),
        call_ensures(SharedGlobalsMap::is_declared, (after, other), is_declared),
    ensures
        is_declared == (was_declared || other@ == kernel@),
        match had {
            Some(s) => got matches Some(t) && t@ == s@,
            None => got is None,
        },
{
}

/// The alignments give back what was entered last for a kernel, and nothing at first. The
/// other kernels keep theirs.
pub proof fn alignments_give_back(
    map: &mut DynamicSmemAlignmentMap,
    before: &DynamicSmemAlignmentMap,
    after: &DynamicSmemAlignmentMap,
    kernel: String,
    symbol: String,
    alignment: u64,
    other: &str,
    had: Option<(String, u64)>,
    got: Option<(String, u64)>,
)
    requires
        *before == *old(map),
        *after == *final(map),
        call_ensures(DynamicSmemAlignmentMap::insert, (map, kernel, symbol, alignment), ()),
        call_ensures(DynamicSmemAlignmentMap::get, (before, other), had),
        call_ensures(DynamicSmemAlignmentMap::get, (after, other), got),
    ensures
        call_ensures(DynamicSmemAlignmentMap::new, (), *before) ==> had is None,
        if other@ == kernel@ {
            got matches Some(e) && e.0@ == symbol@ && e.1 == alignment
        } else {
            match had {
                Some(e) => got matches Some(f) && f.0@ == e.0@ && f.1 == e.1,
                None => got is None,
            }
        },
{
}

/// A type converts to the LLVM type recorded for it, or fails with the reason recorded.
pub proof fn types_convert_as_recorded(
    ctx: &TypeTable,
    ty: TypeId,
    r: Result<TypeId, LowerError>,
)
    requires
        ctx.has(ty),
        call_ensures(TypeTable::convert_type, (ctx, ty), r),
    ensures
        match ctx.types@[ty.0 as int].lowered {
            Ok(t) => r == Ok::<TypeId, LowerError>(t),
            Err(reason) => r matches Err(LowerError::TypeConversion(text)) && text@ == reason@,
        },
{
}

/// A type is a MIR pointer exactly if it is recorded as one.
pub proof fn mir_pointers_are_recorded(ctx: &TypeTable, ty: TypeId, r: Option<MirPtrType>)
    requires
        ctx.has(ty),
        call_ensures(TypeTable::mir_ptr_type, (ctx, ty), r),
    ensures
        match ctx.types@[ty.0 as int].obj {
            TypeObj::MirPtr(p) => r == Some(p),
            _ => r is None,
        },
{
}

/// The program is at fault exactly if an operation has the wrong number of operands.
pub proof fn operand_counts_are_the_programs_fault(e: &LowerError, kind: ErrorKind)
    requires
        call_ensures(LowerError::kind, (e,), kind),
    ensures
        kind is InvalidInput <==> (*e is StoreOperands || *e is PtrOffsetOperands),
{
}

/// A message hands on the reason why a type does not convert or something was not found, and
/// names the kernel or the key that is at fault.
pub proof fn messages_name_what_failed(e: &LowerError, text: String)
    requires
        call_ensures(LowerError::message, (e,), text),
    ensures
        match *e {
            LowerError::TypeConversion(reason) => text@ == reason@,
            LowerError::Lookup(reason) => text@ == reason@,
            LowerError::AlignmentNotComputed { kernel } => text@
                == "Internal error: dynamic shared memory alignment not pre-computed for kernel '"@
                + kernel@
                + "'. This should have been done in compute_max_dynamic_smem_alignment."@,
            LowerError::InvalidConstantKey { key, reason } => text@ == "constant global_key "@
                + str_debug(key@) + " is not a valid identifier: "@ + reason@,
            _ => true,
        },
{
}

/// The message for an invalid key puts the quoted key and the reason in their places.
pub proof fn invalid_key_message_has_both(quoted_key: &str, reason: &str, text: String)
    requires
        call_ensures(invalid_key_message, (quoted_key, reason), text),
    ensures
        text@ == "constant global_key "@ + quoted_key@ + " is not a valid identifier: "@ + reason@,
{
}

} // verus!
