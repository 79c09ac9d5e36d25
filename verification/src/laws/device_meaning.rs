//! What device globals are made for: statics of the right type, in the right memory.

use crate::error::LowerError;
use crate::globals::{convert_global_alloc_dc, create_device_global};
use crate::ir::{Attribute, GlobalVar, LlvmType, MirGlobalAllocOp, OpSite, Rewrite};
use crate::laws::machine::lemma_ops_of_view;
use crate::laws::numerals::{is_numbered_text, lemma_numbered};
use crate::laws::shared_meaning::{
    addressed, counts_one_more, has_place, has_some_place, is_aligned, is_aligned_as_asked,
    is_one_operation, takes_address, tells_lack_of_place,
};
use crate::symbols::{DeviceGlobalsMap, SymbolCounters};
use crate::text::str_debug;
use crate::types::{TypeId, TypeObj, TypeTable};
use vstd::prelude::*;

verus! {

/// Whether a text can name a symbol: a letter or an underscore, then letters, digits and
/// underscores.
pub open spec fn can_name(text: Seq<char>) -> bool {
    &&& text.len() > 0
    &&& !('0' as int <= text[0] as int <= '9' as int)
    &&& forall|i: int|
        0 <= i < text.len() ==> {
            let c = (#[trigger] text[i]) as int;
            'a' as int <= c <= 'z' as int || 'A' as int <= c <= 'Z' as int || '0' as int <= c
                <= '9' as int || c == '_' as int
        }
}

/// Whether a global is a static of type `ty`.
pub open spec fn is_static(g: GlobalVar<String>, ty: TypeId, address_space: u32) -> bool {
    &&& g.ty == LlvmType::Handle(ty)
    &&& g.address_space == address_space
    &&& !g.external
}

/// Whether the symbol of a new global is the key in constant memory, and numbered elsewhere,
/// and whether the number is counted.
pub open spec fn is_named(
    symbol: Seq<char>,
    key: Seq<char>,
    address_space: u32,
    before: usize,
    after: usize,
) -> bool {
    if address_space == 4 {
        symbol == key && can_name(key) && after == before
    } else {
        is_numbered_text(symbol, "__device_global_"@, before as int) && counts_one_more(
            before,
            after,
        )
    }
}

/// Whether the account of a refused key opens with the name of the error type, and gives the
/// kind of the error and then the key in quotes.
pub open spec fn quotes_refused_key(account: Seq<char>, key: Seq<char>) -> bool {
    exists|a: Seq<char>, b: Seq<char>, c: Seq<char>|
        account == #[trigger] ("Error"@ + a + "InvalidArgument"@ + b + str_debug(key) + c)
}

/// Whether `e` is the reason why no global can be made: its type does not convert, its key
/// cannot be a symbol, or there is no place for it. Of several reasons it is the first. The
/// number is spent only if the place alone is missing.
pub open spec fn tells_why_not_made(
    ctx: TypeTable,
    site: OpSite,
    key: Seq<char>,
    ty: TypeId,
    address_space: u32,
    before: usize,
    after: usize,
    e: LowerError,
) -> bool {
    match ctx.types@[ty.0 as int].lowered {
        Err(reason) => {
            &&& e matches LowerError::TypeConversion(text)
            &&& text@ == reason@
            &&& after == before
        },
        Ok(_) => if address_space == 4 && !can_name(key) {
            &&& e matches LowerError::InvalidConstantKey { key: k, reason }
            &&& k@ == key
            &&& quotes_refused_key(reason@, key)
            &&& after == before
        } else {
            &&& tells_lack_of_place(e, site)
            &&& if address_space == 4 {
                after == before
            } else {
                counts_one_more(before, after)
            }
        },
    }
}

/// A device global has the LLVM type asked for and the alignment asked for, in whatever
/// memory it lies. In constant memory its symbol is its key, elsewhere it is numbered. The
/// key is entered with it.
pub proof fn created_device_global_is_as_asked(
    ctx: &TypeTable,
    site: &OpSite,
    device_globals: &mut DeviceGlobalsMap,
    counters: &mut SymbolCounters,
    key: &str,
    ty: TypeId,
    alignment: u64,
    address_space: u32,
    r: Result<GlobalVar<String>, LowerError>,
)
    requires
        ctx.has(ty),
        call_ensures(
            create_device_global,
            (ctx, site, device_globals, counters, key, ty, alignment, address_space),
            r,
        ),
    ensures
        final(counters).shared == old(counters).shared,
        match r {
            Ok(g) => {
                &&& ctx.types@[ty.0 as int].lowered matches Ok(llvm_ty)
                &&& is_static(g, llvm_ty, address_space)
                &&& is_aligned(g.alignment, alignment)
                &&& has_place(*site, g.block)
                &&& is_named(
                    g.symbol@,
                    key@,
                    address_space,
                    old(counters).device,
                    final(counters).device,
                )
                &&& final(device_globals)@ == old(device_globals)@.insert(key@, g.symbol@)
            },
            Err(e) => {
                &&& final(device_globals)@ == old(device_globals)@
                &&& tells_why_not_made(
                    *ctx,
                    *site,
                    key@,
                    ty,
                    address_space,
                    old(counters).device,
                    final(counters).device,
                    e,
                )
            },
        },
{
    lemma_numbered("__device_global_"@, old(counters).device as nat);
}

/// The memory that a pointer leads to: constant memory if it says so, else global memory.
pub open spec fn memory_of(ctx: TypeTable, ty: TypeId) -> u32 {
    match ctx.types@[ty.0 as int].obj {
        TypeObj::MirPtr(p) => if p.address_space == 4 {
            4
        } else {
            1
        },
        _ => 0,
    }
}

/// A global allocation yields the address of a global, in the memory that its pointer names.
/// The global is the one that its key has, or else a new one: of the LLVM type of the type
/// attribute, in that memory, whichever it is, and aligned as the operation asks.
pub proof fn global_allocation_is_as_asked(
    ctx: &TypeTable,
    op: &MirGlobalAllocOp,
    device_globals: &mut DeviceGlobalsMap,
    counters: &mut SymbolCounters,
    key: String,
    ty: TypeId,
    result: TypeId,
    r: Result<Rewrite, LowerError>,
)
    requires
        op.global_key == Some(Attribute::Str(key)),
        op.global_type == Some(Attribute::Type(ty)),
        op.result_type == Some(result),
        ctx.has(ty),
        ctx.has(result),
        call_ensures(convert_global_alloc_dc, (ctx, op, device_globals, counters), r),
    ensures
        final(counters).shared == old(counters).shared,
        match r {
            Ok(w) => {
                &&& is_one_operation(w)
                &&& ctx.types@[result.0 as int].obj is MirPtr
                &&& takes_address(w, memory_of(*ctx, result))
                &&& match w.global {
                    None => {
                        &&& old(device_globals)@.contains_key(key@)
                        &&& addressed(w) == old(device_globals)@[key@]
                        &&& final(device_globals)@ == old(device_globals)@
                        &&& final(counters).device == old(counters).device
                    },
                    Some(g) => {
                        &&& !old(device_globals)@.contains_key(key@)
                        &&& g.symbol@ == addressed(w)
                        &&& ctx.types@[ty.0 as int].lowered matches Ok(llvm_ty)
                        &&& is_static(g, llvm_ty, memory_of(*ctx, result))
                        &&& is_aligned_as_asked(g.alignment, op.alignment)
                        &&& has_place(op.site, g.block)
                        &&& is_named(
                            g.symbol@,
                            key@,
                            memory_of(*ctx, result),
                            old(counters).device,
                            final(counters).device,
                        )
                        &&& final(device_globals)@ == old(device_globals)@.insert(
                            key@,
                            g.symbol@,
                        )
                    },
                }
            },
            Err(e) => {
                &&& final(device_globals)@ == old(device_globals)@
                &&& if ctx.types@[result.0 as int].obj is MirPtr {
                    !old(device_globals)@.contains_key(key@) && tells_why_not_made(
                        *ctx,
                        op.site,
                        key@,
                        ty,
                        memory_of(*ctx, result),
                        old(counters).device,
                        final(counters).device,
                        e,
                    )
                } else {
                    e is GlobalResultNotPointer && final(counters).device == old(counters).device
                }
            },
        },
{
    lemma_numbered("__device_global_"@, old(counters).device as nat);
    if r is Ok {
        let w = r->Ok_0;
        lemma_ops_of_view(w);
        assert(w@.ops[0] == w.ops@[0]@);
        assert(w.global is Some <==> w@.global is Some);
        assert(w.global matches Some(g) ==> w@.global == Some(g@));
    }
}

/// A global allocation without a key or a type, or with an attribute of another kind in
/// their place, fails for that reason and changes nothing. The key is looked at first.
pub proof fn global_allocation_needs_its_attributes(
    ctx: &TypeTable,
    op: &MirGlobalAllocOp,
    device_globals: &mut DeviceGlobalsMap,
    counters: &mut SymbolCounters,
    r: Result<Rewrite, LowerError>,
)
    requires
        !((op.global_key matches Some(k) && k is Str) && (op.global_type matches Some(t)
            && t is Type)),
        op.global_type matches Some(Attribute::Type(ty)) ==> ctx.has(ty),
        call_ensures(convert_global_alloc_dc, (ctx, op, device_globals, counters), r),
    ensures
        final(device_globals)@ == old(device_globals)@,
        *final(counters) == *old(counters),
        ({
            &&& r matches Err(e)
            &&& match op.global_key {
                None => e is MissingGlobalKey,
                Some(Attribute::Str(_)) => if op.global_type is None {
                    e is MissingGlobalType
                } else {
                    e is GlobalTypeNotType
                },
                Some(_) => e is GlobalKeyNotString,
            }
        }),
{
}

/// A global can be made at a place, of a type that converts, under a key that can be its
/// symbol if it is a constant.
pub proof fn device_globals_are_made_when_possible(
    ctx: &TypeTable,
    site: &OpSite,
    device_globals: &mut DeviceGlobalsMap,
    counters: &mut SymbolCounters,
    key: &str,
    ty: TypeId,
    alignment: u64,
    address_space: u32,
    r: Result<GlobalVar<String>, LowerError>,
)
    requires
        ctx.has(ty),
        call_ensures(
            create_device_global,
            (ctx, site, device_globals, counters, key, ty, alignment, address_space),
            r,
        ),
    ensures
        r is Ok <==> ctx.types@[ty.0 as int].lowered is Ok && has_some_place(*site) && (
        address_space == 4 ==> can_name(key@)),
{
    created_device_global_is_as_asked(
        ctx,
        site,
        device_globals,
        counters,
        key,
        ty,
        alignment,
        address_space,
        r,
    );
}

} // verus!
