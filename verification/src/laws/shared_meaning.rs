//! What shared memory is made for: arrays of the right size, and pools addressed in bytes.

use crate::error::LowerError;
use crate::globals::{
    convert_extern_shared_dc, convert_shared_alloc_dc, create_shared_global,
    get_or_create_extern_shared_global,
};
use crate::ir::{
    Attribute, BlockId, GlobalVar, Inst, LlvmType, MirExternSharedOp, MirSharedAllocOp, OpSite,
    Replacement, Rewrite, Value,
};
use crate::laws::machine::{
    go_on, lemma_bytes, lemma_ops_of_view, lemma_run, lemma_wrap_signed, results, run_all, signed,
    size_of, start, step, wrap, Datum, Surroundings,
};
use crate::laws::numerals::{is_numbered_text, lemma_numbered};
use crate::symbols::{DynamicSmemAlignmentMap, SharedGlobalsMap, SymbolCounters};
use crate::types::{TypeId, TypeTable};
use vstd::prelude::*;

verus! {

/// Whether new globals around `site` go into `block`.
pub open spec fn has_place(site: OpSite, block: BlockId) -> bool {
    site.parent_block matches Some(around) && around.module_block matches Ok(Some(b)) && b == block
}

/// Whether there is a place for new globals around `site`.
pub open spec fn has_some_place(site: OpSite) -> bool {
    exists|block: BlockId| has_place(site, block)
}

/// Whether `e` is the reason why there is no place for new globals around `site`.
pub open spec fn tells_lack_of_place(e: LowerError, site: OpSite) -> bool {
    match e {
        LowerError::NoParentBlock => site.parent_block is None,
        LowerError::Lookup(text) => site.parent_block matches Some(around) && around.module_block
            matches Err(reason) && text@ == reason@,
        LowerError::EmptyModule => site.parent_block matches Some(around) && around.module_block
            matches Ok(b) && b is None,
        _ => false,
    }
}

/// Whether a global that was asked to have `alignment`, zero meaning any, has it.
pub open spec fn is_aligned(actual: Option<u64>, alignment: u64) -> bool {
    match actual {
        Some(a) => a == alignment && a != 0,
        None => alignment == 0,
    }
}

/// Whether a global that may have been asked for an alignment has it.
pub open spec fn is_aligned_as_asked(actual: Option<u64>, asked: Option<u64>) -> bool {
    match asked {
        Some(a) => is_aligned(actual, a),
        None => actual is None,
    }
}

/// Whether `after` counts one more than `before`, starting again at zero past the end.
pub open spec fn counts_one_more(before: usize, after: usize) -> bool {
    after == (if before < usize::MAX {
        before + 1
    } else {
        0
    })
}

/// Whether a global is shared memory for `size` elements of type `elem`.
pub open spec fn is_shared_array(g: GlobalVar<String>, elem: TypeId, size: u64) -> bool {
    &&& g.ty == (LlvmType::Array { elem: Box::new(LlvmType::Handle(elem)), len: size })
    &&& g.address_space == 3
    &&& !g.external
}

/// The symbol whose address the first operation takes.
pub open spec fn addressed(w: Rewrite) -> Seq<char> {
    match w.ops@[0] {
        Inst::AddressOf { symbol, .. } => symbol@,
        _ => Seq::empty(),
    }
}

/// Whether the rewrite begins with taking an address in `address_space`.
pub open spec fn takes_address(w: Rewrite, address_space: u32) -> bool {
    &&& w.ops@.len() > 0
    &&& w.ops@[0] matches Inst::AddressOf { address_space: space, .. } && space == address_space
}

/// Whether the rewrite is one operation, which takes the lowered operation's place.
pub open spec fn is_one_operation(w: Rewrite) -> bool {
    w.ops@.len() == 1 && w.replacement == Replacement::<Vec<Value>>::Op(0)
}

/// An array of `size` elements has room for `size` elements.
pub proof fn shared_arrays_have_room(
    g: GlobalVar<String>,
    elem: TypeId,
    size: u64,
    env: Surroundings,
)
    requires
        is_shared_array(g, elem, size),
    ensures
        size_of(env, g.ty) == size * (env.sizes)(elem),
{
    assert(size_of(env, LlvmType::Handle(elem)) == (env.sizes)(elem));
}

/// A global made for static shared memory is an array of as many elements as asked for, of
/// the LLVM type asked for, aligned as asked for, under a numbered symbol, whatever its key
/// and alignment. The key is entered with it. It is not made exactly if the type does not
/// convert or there is no place for it; in the second case the number is spent.
pub proof fn created_shared_global_is_as_asked(
    ctx: &TypeTable,
    site: &OpSite,
    shared_globals: &mut SharedGlobalsMap,
    counters: &mut SymbolCounters,
    elem: TypeId,
    size: u64,
    alignment: u64,
    key: Option<String>,
    r: Result<GlobalVar<String>, LowerError>,
)
    requires
        ctx.has(elem),
        call_ensures(
            create_shared_global,
            (ctx, site, shared_globals, counters, elem, size, alignment, key),
            r,
        ),
    ensures
        final(shared_globals)@.pools == old(shared_globals)@.pools,
        final(counters).device == old(counters).device,
        r matches Ok(g) ==> {
            &&& ctx.types@[elem.0 as int].lowered matches Ok(ty)
            &&& is_shared_array(g, ty, size)
            &&& is_aligned(g.alignment, alignment)
            &&& has_place(*site, g.block)
            &&& is_numbered_text(g.symbol@, "__shared_mem_"@, old(counters).shared as int)
            &&& counts_one_more(old(counters).shared, final(counters).shared)
            &&& final(shared_globals)@.keys == (match key {
                Some(k) => old(shared_globals)@.keys.insert(k@, g.symbol@),
                None => old(shared_globals)@.keys,
            })
        },
        r matches Err(e) ==> {
            &&& final(shared_globals)@ == old(shared_globals)@
            &&& match ctx.types@[elem.0 as int].lowered {
                Err(reason) => {
                    &&& e matches LowerError::TypeConversion(text)
                    &&& text@ == reason@
                    &&& final(counters).shared == old(counters).shared
                },
                Ok(_) => tells_lack_of_place(e, *site) && counts_one_more(
                    old(counters).shared,
                    final(counters).shared,
                ),
            }
        },
{
    lemma_numbered("__shared_mem_"@, old(counters).shared as nat);
}

/// Whether the key of a static shared allocation has a symbol.
pub open spec fn has_known_key(op: MirSharedAllocOp, keys: Map<Seq<char>, Seq<char>>) -> bool {
    op.alloc_key matches Some(key) && keys.contains_key(key@)
}

/// A static shared allocation yields the address of a global in shared memory. The global is
/// the one that its key has, or else a new one: an array of exactly as many elements as the
/// size attribute says, of the LLVM type of the element attribute, aligned as the operation
/// asks, under a numbered symbol, whatever its key and alignment.
pub proof fn shared_allocation_is_as_asked(
    ctx: &TypeTable,
    op: &MirSharedAllocOp,
    shared_globals: &mut SharedGlobalsMap,
    counters: &mut SymbolCounters,
    r: Result<Rewrite, LowerError>,
)
    requires
        op.elem_type matches Some(Attribute::Type(elem)) ==> ctx.has(elem),
        call_ensures(convert_shared_alloc_dc, (ctx, op, shared_globals, counters), r),
    ensures
        r matches Ok(w) ==> {
            &&& is_one_operation(w)
            &&& takes_address(w, 3)
            &&& w.global is None <==> has_known_key(*op, old(shared_globals)@.keys)
            &&& w.global is None ==> addressed(w)
                == old(shared_globals)@.keys[op.alloc_key->Some_0@]
            &&& w.global matches Some(g) ==> {
                &&& g.symbol@ == addressed(w)
                &&& op.elem_type matches Some(Attribute::Type(elem))
                &&& op.size matches Some(Attribute::Integer(size))
                &&& ctx.types@[elem.0 as int].lowered matches Ok(ty)
                &&& is_shared_array(g, ty, size)
                &&& is_aligned_as_asked(g.alignment, op.alignment)
                &&& has_place(op.site, g.block)
                &&& is_numbered_text(g.symbol@, "__shared_mem_"@, old(counters).shared as int)
            }
        },
{
    if r is Ok {
        let w = r->Ok_0;
        lemma_ops_of_view(w);
        assert(w@.ops[0] == w.ops@[0]@);
        lemma_numbered("__shared_mem_"@, old(counters).shared as nat);
        assert(w.global is Some <==> w@.global is Some);
        assert(w.global matches Some(g) ==> w@.global == Some(g@));
    }
}

/// A static shared allocation succeeds exactly if it has an element type and a size, and
/// either its key has a symbol, or the type converts and there is a place for a global. Of
/// several reasons to fail it tells the first, in this order.
pub proof fn shared_allocation_fails_for_cause(
    ctx: &TypeTable,
    op: &MirSharedAllocOp,
    shared_globals: &mut SharedGlobalsMap,
    counters: &mut SymbolCounters,
    r: Result<Rewrite, LowerError>,
)
    requires
        op.elem_type matches Some(Attribute::Type(elem)) ==> ctx.has(elem),
        call_ensures(convert_shared_alloc_dc, (ctx, op, shared_globals, counters), r),
    ensures
        r is Ok ==> op.elem_type is Some && op.elem_type->Some_0 is Type && op.size is Some
            && op.size->Some_0 is Integer,
        r is Ok && !has_known_key(*op, old(shared_globals)@.keys) ==> has_some_place(op.site)
            && ctx.types@[op.elem_type->Some_0->Type_0.0 as int].lowered is Ok,
        r matches Err(e) ==> match e {
            LowerError::MissingElemType => op.elem_type is None,
            LowerError::ElemTypeNotType => op.elem_type matches Some(a) && !(a is Type),
            LowerError::MissingSize => (op.elem_type matches Some(a) && a is Type)
                && op.size is None,
            LowerError::SizeNotInteger => (op.elem_type matches Some(a) && a is Type) && (
            op.size matches Some(s) && !(s is Integer)),
            LowerError::TypeConversion(text) => {
                &&& op.elem_type matches Some(Attribute::Type(elem))
                &&& op.size matches Some(s) && s is Integer
                &&& !has_known_key(*op, old(shared_globals)@.keys)
                &&& ctx.types@[elem.0 as int].lowered matches Err(reason)
                &&& text@ == reason@
            },
            _ => {
                &&& op.elem_type matches Some(Attribute::Type(elem))
                &&& op.size matches Some(s) && s is Integer
                &&& !has_known_key(*op, old(shared_globals)@.keys)
                &&& ctx.types@[elem.0 as int].lowered is Ok
                &&& tells_lack_of_place(e, op.site)
            },
        },
{
    if r is Ok && op.site.parent_block is Some {
        let block = op.site.parent_block->Some_0.module_block->Ok_0->Some_0;
        assert(op.site.parent_block->Some_0.module_block is Ok
            && op.site.parent_block->Some_0.module_block->Ok_0 is Some ==> has_place(
            op.site,
            block,
        ));
    }
}

/// A static shared allocation enters a new global under its key, if it has one, and counts
/// one symbol more for it. Otherwise nothing changes, but that the symbol is counted too if
/// only the place for the global was missing.
pub proof fn shared_allocation_keeps_books(
    ctx: &TypeTable,
    op: &MirSharedAllocOp,
    shared_globals: &mut SharedGlobalsMap,
    counters: &mut SymbolCounters,
    r: Result<Rewrite, LowerError>,
)
    requires
        op.elem_type matches Some(Attribute::Type(elem)) ==> ctx.has(elem),
        call_ensures(convert_shared_alloc_dc, (ctx, op, shared_globals, counters), r),
    ensures
        final(shared_globals)@.pools == old(shared_globals)@.pools,
        final(counters).device == old(counters).device,
        match r {
            Ok(w) => match w.global {
                Some(g) => {
                    &&& counts_one_more(old(counters).shared, final(counters).shared)
                    &&& final(shared_globals)@.keys == (match op.alloc_key {
                        Some(k) => old(shared_globals)@.keys.insert(k@, g.symbol@),
                        None => old(shared_globals)@.keys,
                    })
                },
                None => {
                    &&& final(counters).shared == old(counters).shared
                    &&& final(shared_globals)@.keys == old(shared_globals)@.keys
                },
            },
            Err(e) => {
                &&& final(shared_globals)@.keys == old(shared_globals)@.keys
                &&& if e is NoParentBlock || e is Lookup || e is EmptyModule {
                    counts_one_more(old(counters).shared, final(counters).shared)
                } else {
                    final(counters).shared == old(counters).shared
                }
            },
        },
{
    if r is Ok {
        let w = r->Ok_0;
        assert(w.global is Some <==> w@.global is Some);
        assert(w.global matches Some(g) ==> w@.global == Some(g@));
    }
}

/// Whether a global is the pool of dynamic shared memory under `symbol`: bytes without a
/// length, declared elsewhere.
pub open spec fn is_pool(g: GlobalVar<String>, symbol: Seq<char>, alignment: u64) -> bool {
    &&& g.symbol@ == symbol
    &&& g.ty == (LlvmType::Array { elem: Box::new(LlvmType::Integer(8)), len: 0 })
    &&& g.alignment == Some(alignment)
    &&& g.address_space == 3
    &&& g.external
}

/// The pool of a kernel goes by the symbol computed for the kernel and has the alignment
/// computed for it. It is declared exactly if it was not before, and from then on counts as
/// declared. It is not found exactly if nothing was computed for the kernel, or it would
/// have to be declared and there is no place for it.
pub proof fn pool_is_as_computed(
    site: &OpSite,
    kernel: &str,
    shared_globals: &mut SharedGlobalsMap,
    alignments: &DynamicSmemAlignmentMap,
    requested: u64,
    r: Result<(String, Option<GlobalVar<String>>), LowerError>,
)
    requires
        call_ensures(
            get_or_create_extern_shared_global,
            (site, kernel, shared_globals, alignments, requested),
            r,
        ),
    ensures
        final(shared_globals)@.keys == old(shared_globals)@.keys,
        match r {
            Ok((symbol, global)) => {
                &&& alignments@.contains_key(kernel@)
                &&& symbol@ == alignments@[kernel@].0
                &&& global is None <==> old(shared_globals)@.pools.contains_key(kernel@)
                &&& global matches Some(g) ==> is_pool(g, symbol@, alignments@[kernel@].1)
                    && has_place(*site, g.block)
                &&& final(shared_globals)@.pools == (if global is None {
                    old(shared_globals)@.pools
                } else {
                    old(shared_globals)@.pools.insert(kernel@, symbol@)
                })
            },
            Err(e) => {
                &&& final(shared_globals)@.pools == old(shared_globals)@.pools
                &&& match e {
                    LowerError::AlignmentNotComputed { kernel: k } => k@ == kernel@
                        && !alignments@.contains_key(kernel@),
                    _ => alignments@.contains_key(kernel@)
                        && !old(shared_globals)@.pools.contains_key(kernel@)
                        && tells_lack_of_place(e, *site),
                }
            },
        },
{
}

/// Whether an operation stands in the function `kernel`.
pub open spec fn stands_in(site: OpSite, kernel: Seq<char>) -> bool {
    site.parent_block matches Some(around) && around.function matches Ok(Some(name)) && name@
        == kernel
}

/// Every integer constant of a rewrite has as many bits as an address, and every address is
/// computed in bytes.
pub open spec fn computes_in_bytes(w: Rewrite) -> bool {
    forall|i: int|
        0 <= i < w.ops@.len() ==> match #[trigger] w.ops@[i] {
            Inst::Constant { width, .. } => width == 64,
            Inst::GetElementPtr { elem_type, .. } => elem_type == LlvmType::Integer(8),
            _ => true,
        }
}

/// A pointer into dynamic shared memory is the address of the pool of the kernel around it,
/// plus as many bytes as the operation says. No memory is touched. The base itself takes one
/// operation, any other address three.
pub proof fn dynamic_pointer_is_base_and_offset(
    op: &MirExternSharedOp,
    shared_globals: &mut SharedGlobalsMap,
    alignments: &DynamicSmemAlignmentMap,
    r: Result<Rewrite, LowerError>,
    kernel: Seq<char>,
    env: Surroundings,
    memory: Map<int, int>,
)
    requires
        stands_in(op.site, kernel),
        call_ensures(convert_extern_shared_dc, (op, shared_globals, alignments), r),
    ensures
        r matches Ok(w) ==> {
            &&& takes_address(w, 3)
            &&& addressed(w) == alignments@[kernel].0
            &&& computes_in_bytes(w)
            &&& w.ops@.len() == (if op.byte_offset == 0 {
                1
            } else {
                3int
            })
            &&& w.replacement == Replacement::<Vec<Value>>::Op((w.ops@.len() - 1) as usize)
            &&& run_all(env, memory, w) matches Some(m)
            &&& m.memory == memory
            &&& m.slots.len() == 0
            &&& results(env, m, w).len() == 1
            &&& results(env, m, w)[0] matches Some(address)
            &&& wrap(address) == wrap((env.addresses)(alignments@[kernel].0) + op.byte_offset)
        },
{
    if r is Ok {
        let w = r->Ok_0;
        let base = (env.addresses)(alignments@[kernel].0);
        lemma_ops_of_view(w);
        lemma_run(env, memory, w);
        assert(w@.ops[0] == w.ops@[0]@);
        let first = step(env, start(memory), w.ops@[0]);
        assert(first is Some && first->Some_0.results =~= seq![Datum::Number(base)]);
        if op.byte_offset != 0 {
            assert(w@.ops[1] == w.ops@[1]@ && w@.ops[2] == w.ops@[2]@);
            lemma_wrap_signed(base, op.byte_offset);
            let offset = signed(64, op.byte_offset);
            let second = go_on(env, first, w.ops@[1]);
            assert(second is Some && second->Some_0.results =~= seq![
                Datum::Number(base),
                Datum::Number(offset),
            ]);
            lemma_bytes(env, offset);
            let third = go_on(env, second, w.ops@[2]);
            assert(third is Some && third->Some_0.results[2] == Datum::Number(
                wrap(base + offset),
            ));
            assert(w.replacement == Replacement::<Vec<Value>>::Op(2));
        } else {
            assert(w.replacement == Replacement::<Vec<Value>>::Op(0));
        }
    }
}

/// A pointer into dynamic shared memory comes with the pool of its kernel exactly if that was
/// not declared before. It fails exactly if it stands in no function, nothing was computed
/// for the function, or the pool would have to be declared and there is no place for it. Of
/// several reasons it tells the first, in this order.
pub proof fn dynamic_pointer_declares_its_pool(
    op: &MirExternSharedOp,
    shared_globals: &mut SharedGlobalsMap,
    alignments: &DynamicSmemAlignmentMap,
    r: Result<Rewrite, LowerError>,
)
    requires
        call_ensures(convert_extern_shared_dc, (op, shared_globals, alignments), r),
    ensures
        final(shared_globals)@.keys == old(shared_globals)@.keys,
        match r {
            Ok(w) => {
                &&& op.site.parent_block matches Some(around)
                &&& around.function matches Ok(Some(kernel))
                &&& alignments@.contains_key(kernel@)
                &&& w.global is None <==> old(shared_globals)@.pools.contains_key(kernel@)
                &&& w.global matches Some(g) ==> is_pool(
                    g,
                    alignments@[kernel@].0,
                    alignments@[kernel@].1,
                ) && has_place(op.site, g.block)
                &&& final(shared_globals)@.pools == (if w.global is None {
                    old(shared_globals)@.pools
                } else {
                    old(shared_globals)@.pools.insert(kernel@, alignments@[kernel@].0)
                })
            },
            Err(e) => {
                &&& final(shared_globals)@.pools == old(shared_globals)@.pools
                &&& match op.site.parent_block {
                    None => e is NoParentBlock,
                    Some(around) => match around.function {
                        Err(reason) => e matches LowerError::Lookup(text) && text@ == reason@,
                        Ok(None) => e is ParentNotFunction,
                        Ok(Some(kernel)) => if alignments@.contains_key(kernel@) {
                            !old(shared_globals)@.pools.contains_key(kernel@)
                                && tells_lack_of_place(e, op.site)
                        } else {
                            e matches LowerError::AlignmentNotComputed { kernel: k } && k@
                                == kernel@
                        },
                    },
                }
            },
        },
{
    if r is Ok {
        let w = r->Ok_0;
        assert(w.global is Some <==> w@.global is Some);
        assert(w.global matches Some(g) ==> w@.global == Some(g@));
    }
}

} // verus!
