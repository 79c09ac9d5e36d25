//! Lowering of allocations with a symbol: static and dynamic shared memory, and device
//! globals.
//!
//! | MIR operation       | LLVM operations       | Symbol                              |
//! |---------------------|-----------------------|-------------------------------------|
//! | `mir.shared_alloc`  | `global`, `addressof` | `__shared_mem_N`                    |
//! | `mir.global_alloc`  | `global`, `addressof` | `__device_global_N`, or the key     |
//! | `mir.extern_shared` | `global`, `addressof` | one for each kernel, chosen earlier |

use crate::address_space;
use crate::error::{LowerCause, LowerError, LowerFailure};
use crate::ir::{
    outcome, Attribute, BlockId, GlobalVar, Inst, LlvmType, MirExternSharedOp, MirGlobalAllocOp,
    MirSharedAllocOp, OpSite, Replacement, Rewrite, RewriteView, Value,
};
use crate::symbols::{
    DeviceGlobalsMap, DynamicSmemAlignmentMap, SharedGlobalsMap, SharedTable, SymbolCounters,
};
use crate::text::{
    decimal, decimal_text, is_identifier, is_identifier_part, lemma_decimal_is_digits,
    try_identifier,
};
use crate::types::{TypeId, TypeTable};
use vstd::prelude::*;
use vstd::string::*;

verus! {

/// The symbol of the static shared allocation numbered `n`.
pub open spec fn shared_symbol(n: usize) -> Seq<char> {
    "__shared_mem_"@ + decimal(n as nat)
}

/// The symbol of the ordinary device global numbered `n`.
pub open spec fn device_symbol(n: usize) -> Seq<char> {
    "__device_global_"@ + decimal(n as nat)
}

/// The number after `n`; the numbers start again at zero when they run out.
pub open spec fn next_number(n: usize) -> usize {
    if n == usize::MAX {
        0
    } else {
        (n + 1) as usize
    }
}

/// The alignment that an operation asks for, where not saying so means zero.
pub open spec fn alignment_or_zero(alignment: Option<u64>) -> u64 {
    match alignment {
        Some(a) => a,
        None => 0,
    }
}

/// The alignment that a global is given: one of zero is the same as none.
pub open spec fn requested_alignment(alignment: u64) -> Option<u64> {
    if alignment > 0 {
        Some(alignment)
    } else {
        None
    }
}

/// The block of the module that takes new globals, or why there is none.
pub open spec fn global_block(site: OpSite) -> Result<BlockId, LowerCause> {
    match site.parent_block {
        None => Err(LowerFailure::NoParentBlock),
        Some(block) => match block.module_block {
            Err(e) => Err(LowerFailure::Lookup(e@)),
            Ok(None) => Err(LowerFailure::EmptyModule),
            Ok(Some(b)) => Ok(b),
        },
    }
}

/// The symbol of the function around an operation, or why there is none.
pub open spec fn enclosing_function(site: OpSite) -> Result<Seq<char>, LowerCause> {
    match site.parent_block {
        None => Err(LowerFailure::NoParentBlock),
        Some(block) => match block.function {
            Err(e) => Err(LowerFailure::Lookup(e@)),
            Ok(None) => Err(LowerFailure::ParentNotFunction),
            Ok(Some(name)) => Ok(name@),
        },
    }
}

/// The rewrite that takes the address of the global `symbol`, after `global` has been
/// created if there is one to create.
pub open spec fn address_of(
    global: Option<GlobalVar<Seq<char>>>,
    symbol: Seq<char>,
    address_space: u32,
) -> RewriteView {
    RewriteView {
        global,
        ops: seq![Inst::AddressOf { symbol, address_space }],
        replacement: Replacement::Op(0),
    }
}

fn find_global_block(site: &OpSite) -> (r: Result<BlockId, LowerError>)
    ensures
        match global_block(*site) {
            Ok(b) => r == Ok::<BlockId, LowerError>(b),
            Err(e) => r matches Err(f) && f.cause() == e,
        },
{
    match &site.parent_block {
        None => Err(LowerFailure::NoParentBlock),
        Some(block) => match &block.module_block {
            Err(e) => Err(LowerFailure::Lookup(e.clone())),
            Ok(None) => Err(LowerFailure::EmptyModule),
            Ok(Some(b)) => Ok(*b),
        },
    }
}

fn find_enclosing_function(site: &OpSite) -> (r: Result<String, LowerError>)
    ensures
        match enclosing_function(*site) {
            Ok(name) => r matches Ok(s) && s@ == name,
            Err(e) => r matches Err(f) && f.cause() == e,
        },
{
    match &site.parent_block {
        None => Err(LowerFailure::NoParentBlock),
        Some(block) => match &block.function {
            Err(e) => Err(LowerFailure::Lookup(e.clone())),
            Ok(None) => Err(LowerFailure::ParentNotFunction),
            Ok(Some(name)) => Ok(name.clone()),
        },
    }
}

fn rewrite_address_of(
    global: Option<GlobalVar<String>>,
    symbol: String,
    address_space: u32,
) -> (r: Rewrite)
    ensures
        r@ == address_of(
            match global {
                Some(g) => Some(g@),
                None => None,
            },
            symbol@,
            address_space,
        ),
{
    let r = Rewrite {
        global,
        ops: vec![Inst::AddressOf { symbol, address_space }],
        replacement: Replacement::Op(0),
    };
    assert(r@.ops =~= seq![Inst::AddressOf { symbol: symbol@, address_space }]);
    r
}

/// An identifier followed by a numeral is an identifier.
pub(crate) proof fn lemma_numbered_identifier(prefix: Seq<char>, n: nat)
    requires
        is_identifier(prefix),
    ensures
        is_identifier(prefix + decimal(n)),
{
    lemma_decimal_is_digits(n);
    let s = prefix + decimal(n);
    assert forall|i: int| 0 <= i < s.len() implies is_identifier_part(
        #[trigger] s[i],
    ) by {
        if i < prefix.len() {
            assert(s[i] == prefix[i]);
        } else {
            assert(s[i] == decimal(n)[i - prefix.len()]);
        }
    }
}

/// Makes the symbol `prefix` followed by `n` in decimal.
fn numbered_symbol(prefix: &str, n: usize) -> (r: String)
    requires
        is_identifier(prefix@),
    ensures
        r@ == prefix@ + decimal(n as nat),
{
    proof {
        lemma_numbered_identifier(prefix@, n as nat);
    }
    match try_identifier(prefix.to_owned().concat(decimal_text(n as u64).as_str())) {
        Ok(symbol) => symbol,
        Err(_) => unreached(),
    }
}

fn read_alignment(alignment: Option<u64>) -> (r: u64)
    ensures
        r == alignment_or_zero(alignment),
{
    match alignment {
        Some(a) => a,
        None => 0,
    }
}

fn nonzero_alignment(alignment: u64) -> (r: Option<u64>)
    ensures
        r == requested_alignment(alignment),
{
    if alignment > 0 {
        Some(alignment)
    } else {
        None
    }
}

/// The element type and the number of elements that a shared allocation asks for.
pub open spec fn shared_alloc_shape(op: MirSharedAllocOp) -> Result<(TypeId, u64), LowerCause> {
    match op.elem_type {
        None => Err(LowerFailure::MissingElemType),
        Some(Attribute::Type(elem)) => match op.size {
            None => Err(LowerFailure::MissingSize),
            Some(Attribute::Integer(size)) => Ok((elem, size)),
            Some(_) => Err(LowerFailure::SizeNotInteger),
        },
        Some(_) => Err(LowerFailure::ElemTypeNotType),
    }
}

/// The key of a shared allocation.
pub open spec fn shared_alloc_key(op: MirSharedAllocOp) -> Option<Seq<char>> {
    match op.alloc_key {
        Some(key) => Some(key@),
        None => None,
    }
}

/// The global of a static shared allocation.
pub open spec fn shared_global(
    symbol: Seq<char>,
    elem: TypeId,
    size: u64,
    alignment: u64,
    block: BlockId,
) -> GlobalVar<Seq<char>> {
    GlobalVar {
        symbol,
        ty: LlvmType::Array { elem: Box::new(LlvmType::Handle(elem)), len: size },
        alignment: requested_alignment(alignment),
        address_space: address_space::SHARED,
        external: false,
        block,
    }
}

/// The state that lowering of shared memory carries from one use to the next: what has been
/// handed out, and the number for the next new symbol.
#[verifier::ext_equal]
pub struct SharedState {
    pub table: SharedTable,
    pub next: usize,
}

/// How the global for a new static shared allocation is made, and the state that this leaves
/// behind. The number of its symbol is spent even if the module has no place for the global.
pub open spec fn make_shared_global(
    ctx: TypeTable,
    site: OpSite,
    elem: TypeId,
    size: u64,
    alignment: u64,
    key: Option<Seq<char>>,
    state: SharedState,
) -> (Result<GlobalVar<Seq<char>>, LowerCause>, SharedState) {
    match ctx.lowered(elem) {
        Err(e) => (Err(LowerFailure::TypeConversion(e)), state),
        Ok(llvm_elem) => match global_block(site) {
            Err(e) => (Err(e), SharedState { next: next_number(state.next), ..state }),
            Ok(block) => (
                Ok(shared_global(shared_symbol(state.next), llvm_elem, size, alignment, block)),
                SharedState {
                    table: match key {
                        Some(k) => SharedTable {
                            keys: state.table.keys.insert(k, shared_symbol(state.next)),
                            ..state.table
                        },
                        None => state.table,
                    },
                    next: next_number(state.next),
                },
            ),
        },
    }
}

/// Whether a shared allocation repeats an earlier one: it has a key, and the key has a
/// symbol.
pub open spec fn shared_alloc_known(op: MirSharedAllocOp, table: SharedTable) -> bool {
    shared_alloc_key(op) matches Some(key) && table.keys.contains_key(key)
}

/// How a static shared allocation is lowered, and the state that it leaves behind. An
/// allocation whose key is known gets the address of the global made for that key. Any
/// other gets a global of its own.
pub open spec fn lower_shared_alloc(
    ctx: TypeTable,
    op: MirSharedAllocOp,
    state: SharedState,
) -> (Result<RewriteView, LowerCause>, SharedState) {
    match shared_alloc_shape(op) {
        Err(e) => (Err(e), state),
        Ok((elem, size)) => if shared_alloc_known(op, state.table) {
            (
                Ok(
                    address_of(
                        None,
                        state.table.keys[shared_alloc_key(op)->Some_0],
                        address_space::SHARED,
                    ),
                ),
                state,
            )
        } else {
            let (global, after) = make_shared_global(
                ctx,
                op.site,
                elem,
                size,
                alignment_or_zero(op.alignment),
                shared_alloc_key(op),
                state,
            );
            match global {
                Err(e) => (Err(e), after),
                Ok(g) => (Ok(address_of(Some(g), g.symbol, address_space::SHARED)), after),
            }
        },
    }
}

/// Lowers `mir.shared_alloc` to the address of a global in shared memory. Allocations with
/// the same key share one global; `shared_globals` and `counters` are what every
/// allocation of the module has in common.
pub fn convert_shared_alloc_dc(
    ctx: &TypeTable,
    op: &MirSharedAllocOp,
    shared_globals: &mut SharedGlobalsMap,
    counters: &mut SymbolCounters,
) -> (r: Result<Rewrite, LowerError>)
    requires
        op.elem_type matches Some(Attribute::Type(elem)) ==> ctx.has(elem),
    ensures
        ({
            let (result, state) = lower_shared_alloc(
                *ctx,
                *op,
                SharedState { table: old(shared_globals)@, next: old(counters).shared },
            );
            &&& outcome(r) == result
            &&& final(shared_globals)@ == state.table
            &&& *final(counters) == (SymbolCounters { shared: state.next, ..*old(counters) })
        }),
{
    let mir_elem_type = match &op.elem_type {
        None => return Err(LowerFailure::MissingElemType),
        Some(Attribute::Type(elem)) => *elem,
        Some(_) => return Err(LowerFailure::ElemTypeNotType),
    };
    let size = match &op.size {
        None => return Err(LowerFailure::MissingSize),
        Some(Attribute::Integer(size)) => *size,
        Some(_) => return Err(LowerFailure::SizeNotInteger),
    };
    let alignment = read_alignment(op.alignment);
    let alloc_key = match &op.alloc_key {
        Some(key) => {
            if let Some(existing_name) = shared_globals.get(key.as_str()) {
                return Ok(rewrite_address_of(None, existing_name, address_space::SHARED));
            }
            Some(key.clone())
        },
        None => None,
    };
    match create_shared_global(
        ctx,
        &op.site,
        shared_globals,
        counters,
        mir_elem_type,
        size,
        alignment,
        alloc_key,
    ) {
        Ok(global) => {
            let symbol = global.symbol.clone();
            Ok(rewrite_address_of(Some(global), symbol, address_space::SHARED))
        },
        Err(e) => Err(e),
    }
}

/// Makes the global for a static shared allocation at `site`, and enters it under
/// `alloc_key` if there is one, whatever stood under that key before.
pub fn create_shared_global(
    ctx: &TypeTable,
    site: &OpSite,
    shared_globals: &mut SharedGlobalsMap,
    counters: &mut SymbolCounters,
    mir_elem_type: TypeId,
    size: u64,
    alignment: u64,
    alloc_key: Option<String>,
) -> (r: Result<GlobalVar<String>, LowerError>)
    requires
        ctx.has(mir_elem_type),
    ensures
        ({
            let (result, state) = make_shared_global(
                *ctx,
                *site,
                mir_elem_type,
                size,
                alignment,
                match alloc_key {
                    Some(key) => Some(key@),
                    None => None,
                },
                SharedState { table: old(shared_globals)@, next: old(counters).shared },
            );
            &&& match result {
                Ok(g) => r matches Ok(global) && global@ == g,
                Err(e) => r matches Err(f) && f.cause() == e,
            }
            &&& final(shared_globals)@ == state.table
            &&& *final(counters) == (SymbolCounters { shared: state.next, ..*old(counters) })
        }),
{
    let llvm_elem_type = match ctx.convert_type(mir_elem_type) {
        Ok(ty) => ty,
        Err(e) => return Err(e),
    };
    let counter = counters.shared;
    counters.shared = counter.wrapping_add(1);
    proof {
        reveal_strlit("__shared_mem_");
    }
    let symbol = numbered_symbol("__shared_mem_", counter);
    let block = match find_global_block(site) {
        Ok(block) => block,
        Err(e) => return Err(e),
    };
    if let Some(key) = alloc_key {
        shared_globals.insert(key, symbol.clone());
    }
    Ok(
        GlobalVar {
            symbol,
            ty: LlvmType::Array { elem: Box::new(LlvmType::Handle(llvm_elem_type)), len: size },
            alignment: nonzero_alignment(alignment),
            address_space: address_space::SHARED,
            external: false,
            block,
        },
    )
}

/// The key and the type of the global that an allocation asks for, and the address space
/// it belongs to: constant memory if its pointer says so, else global memory.
pub open spec fn global_alloc_shape(ctx: TypeTable, op: MirGlobalAllocOp) -> Result<
    (Seq<char>, TypeId, u32),
    LowerCause,
> {
    match op.global_key {
        None => Err(LowerFailure::MissingGlobalKey),
        Some(Attribute::Str(key)) => match op.global_type {
            None => Err(LowerFailure::MissingGlobalType),
            Some(Attribute::Type(ty)) => match ctx.mir_ptr(op.result_type->Some_0) {
                None => Err(LowerFailure::GlobalResultNotPointer),
                Some(ptr) => Ok((key@, ty, global_address_space(ptr.address_space))),
            },
            Some(_) => Err(LowerFailure::GlobalTypeNotType),
        },
        Some(_) => Err(LowerFailure::GlobalKeyNotString),
    }
}

/// The address space of a device global, from that of the pointer to it.
pub open spec fn global_address_space(address_space: u32) -> u32 {
    if address_space == address_space::CONSTANT {
        address_space::CONSTANT
    } else {
        address_space::GLOBAL
    }
}

/// The state that lowering of device globals carries from one allocation to the next: the
/// symbol of each key, and the number for the next new symbol.
#[verifier::ext_equal]
pub struct DeviceState {
    pub table: Map<Seq<char>, Seq<char>>,
    pub next: usize,
}

/// The symbol for a new device global, and the number for the next one. In constant
/// memory the key itself is the symbol, so that the host can find the global by name;
/// elsewhere the symbol is numbered.
pub open spec fn new_device_symbol(key: Seq<char>, address_space: u32, next: usize) -> (
    Result<Seq<char>, LowerCause>,
    usize,
) {
    if address_space == address_space::CONSTANT {
        if is_identifier(key) {
            (Ok(key), next)
        } else {
            (Err(LowerFailure::InvalidConstantKey { key, reason: () }), next)
        }
    } else {
        (Ok(device_symbol(next)), next_number(next))
    }
}

/// The global of a device allocation.
pub open spec fn device_global(
    symbol: Seq<char>,
    ty: TypeId,
    alignment: u64,
    address_space: u32,
    block: BlockId,
) -> GlobalVar<Seq<char>> {
    GlobalVar {
        symbol,
        ty: LlvmType::Handle(ty),
        alignment: requested_alignment(alignment),
        address_space,
        external: false,
        block,
    }
}

/// How the global for a new key is made, and the state that this leaves behind.
pub open spec fn make_device_global(
    ctx: TypeTable,
    site: OpSite,
    key: Seq<char>,
    ty: TypeId,
    alignment: u64,
    address_space: u32,
    state: DeviceState,
) -> (Result<GlobalVar<Seq<char>>, LowerCause>, DeviceState) {
    match ctx.lowered(ty) {
        Err(e) => (Err(LowerFailure::TypeConversion(e)), state),
        Ok(llvm_ty) => {
            let (symbol, next) = new_device_symbol(key, address_space, state.next);
            match symbol {
                Err(e) => (Err(e), state),
                Ok(symbol) => match global_block(site) {
                    Err(e) => (Err(e), DeviceState { next, ..state }),
                    Ok(block) => (
                        Ok(device_global(symbol, llvm_ty, alignment, address_space, block)),
                        DeviceState { table: state.table.insert(key, symbol), next },
                    ),
                },
            }
        },
    }
}

/// How a global allocation is lowered, and the state that it leaves behind. The address
/// is that of the global which the key has, made now if the key is new.
pub open spec fn lower_global_alloc(
    ctx: TypeTable,
    op: MirGlobalAllocOp,
    state: DeviceState,
) -> (Result<RewriteView, LowerCause>, DeviceState) {
    match global_alloc_shape(ctx, op) {
        Err(e) => (Err(e), state),
        Ok((key, ty, address_space)) => if state.table.contains_key(key) {
            (Ok(address_of(None, state.table[key], address_space)), state)
        } else {
            let (global, after) = make_device_global(
                ctx,
                op.site,
                key,
                ty,
                alignment_or_zero(op.alignment),
                address_space,
                state,
            );
            match global {
                Err(e) => (Err(e), after),
                Ok(g) => (Ok(address_of(Some(g), g.symbol, address_space)), after),
            }
        },
    }
}

/// Lowers `mir.global_alloc`, a `static` of the program, to the address of a global in
/// global or constant memory.
pub fn convert_global_alloc_dc(
    ctx: &TypeTable,
    op: &MirGlobalAllocOp,
    device_globals: &mut DeviceGlobalsMap,
    counters: &mut SymbolCounters,
) -> (r: Result<Rewrite, LowerError>)
    requires
        op.global_type matches Some(Attribute::Type(ty)) ==> ctx.has(ty),
        op.global_key is Some && op.global_key->Some_0 is Str && op.global_type is Some
            && op.global_type->Some_0 is Type ==> (op.result_type matches Some(ty) && ctx.has(ty)),
    ensures
        r matches Err(f) ==> f.is_accounted_for(),
        ({
            let (result, state) = lower_global_alloc(
                *ctx,
                *op,
                DeviceState { table: old(device_globals)@, next: old(counters).device },
            );
            &&& outcome(r) == result
            &&& final(device_globals)@ == state.table
            &&& *final(counters) == (SymbolCounters { device: state.next, ..*old(counters) })
        }),
{
    let global_key = match &op.global_key {
        None => return Err(LowerFailure::MissingGlobalKey),
        Some(Attribute::Str(key)) => key,
        Some(_) => return Err(LowerFailure::GlobalKeyNotString),
    };
    let mir_global_type = match &op.global_type {
        None => return Err(LowerFailure::MissingGlobalType),
        Some(Attribute::Type(ty)) => *ty,
        Some(_) => return Err(LowerFailure::GlobalTypeNotType),
    };
    let alignment = read_alignment(op.alignment);
    let result_type = match op.result_type {
        Some(ty) => ty,
        None => unreached(),
    };
    let addr_space: u32 = match ctx.mir_ptr_type(result_type) {
        Some(ptr) => if ptr.address_space == address_space::CONSTANT {
            address_space::CONSTANT
        } else {
            address_space::GLOBAL
        },
        None => return Err(LowerFailure::GlobalResultNotPointer),
    };
    if let Some(existing_name) = device_globals.get(global_key.as_str()) {
        return Ok(rewrite_address_of(None, existing_name, addr_space));
    }
    match create_device_global(
        ctx,
        &op.site,
        device_globals,
        counters,
        global_key.as_str(),
        mir_global_type,
        alignment,
        addr_space,
    ) {
        Ok(global) => {
            let symbol = global.symbol.clone();
            Ok(rewrite_address_of(Some(global), symbol, addr_space))
        },
        Err(e) => Err(e),
    }
}

/// Makes the global for an allocation at `site`, and enters it under `global_key`, whatever
/// stood under that key before.
pub fn create_device_global(
    ctx: &TypeTable,
    site: &OpSite,
    device_globals: &mut DeviceGlobalsMap,
    counters: &mut SymbolCounters,
    global_key: &str,
    mir_global_type: TypeId,
    alignment: u64,
    addr_space: u32,
) -> (r: Result<GlobalVar<String>, LowerError>)
    requires
        ctx.has(mir_global_type),
    ensures
        r matches Err(f) ==> f.is_accounted_for(),
        ({
            let (result, state) = make_device_global(
                *ctx,
                *site,
                global_key@,
                mir_global_type,
                alignment,
                addr_space,
                DeviceState { table: old(device_globals)@, next: old(counters).device },
            );
            &&& match result {
                Ok(g) => r matches Ok(global) && global@ == g,
                Err(e) => r matches Err(f) && f.cause() == e,
            }
            &&& final(device_globals)@ == state.table
            &&& *final(counters) == (SymbolCounters { device: state.next, ..*old(counters) })
        }),
{
    let llvm_global_type = match ctx.convert_type(mir_global_type) {
        Ok(ty) => ty,
        Err(e) => return Err(e),
    };
    let symbol = if addr_space == address_space::CONSTANT {
        match try_identifier(global_key.to_owned()) {
            Ok(symbol) => symbol,
            Err(reason) => return Err(
                LowerFailure::InvalidConstantKey { key: global_key.to_owned(), reason },
            ),
        }
    } else {
        let counter = counters.device;
        counters.device = counter.wrapping_add(1);
        proof {
            reveal_strlit("__device_global_");
        }
        numbered_symbol("__device_global_", counter)
    };
    let block = match find_global_block(site) {
        Ok(block) => block,
        Err(e) => return Err(e),
    };
    device_globals.insert(global_key.to_owned(), symbol.clone());
    Ok(
        GlobalVar {
            symbol,
            ty: LlvmType::Handle(llvm_global_type),
            alignment: nonzero_alignment(alignment),
            address_space: addr_space,
            external: false,
            block,
        },
    )
}

/// The global of a kernel's dynamic shared memory. Its size is fixed at launch, so it is
/// declared as an array of no bytes.
pub open spec fn dynamic_smem_global(
    symbol: Seq<char>,
    alignment: u64,
    block: BlockId,
) -> GlobalVar<Seq<char>> {
    GlobalVar {
        symbol,
        ty: LlvmType::Array { elem: Box::new(LlvmType::Integer(8)), len: 0 },
        alignment: Some(alignment),
        address_space: address_space::SHARED,
        external: true,
        block,
    }
}

/// The symbol of a kernel's dynamic shared memory, the global to declare for it if that
/// has not been done, and the declared pools that this leaves behind.
pub open spec fn dynamic_smem(
    kernel: Seq<char>,
    site: OpSite,
    alignments: Map<Seq<char>, (Seq<char>, u64)>,
    pools: Map<Seq<char>, Seq<char>>,
) -> (
    Result<(Seq<char>, Option<GlobalVar<Seq<char>>>), LowerCause>,
    Map<Seq<char>, Seq<char>>,
) {
    if !alignments.contains_key(kernel) {
        (Err(LowerFailure::AlignmentNotComputed { kernel }), pools)
    } else {
        let (symbol, alignment) = alignments[kernel];
        if pools.contains_key(kernel) {
            (Ok((symbol, None)), pools)
        } else {
            match global_block(site) {
                Err(e) => (Err(e), pools),
                Ok(block) => (
                    Ok((symbol, Some(dynamic_smem_global(symbol, alignment, block)))),
                    pools.insert(kernel, symbol),
                ),
            }
        }
    }
}

/// The rewrite that takes the address `byte_offset` bytes into the shared memory `symbol`.
/// No arithmetic is emitted for the base address itself.
pub open spec fn address_in_shared(
    global: Option<GlobalVar<Seq<char>>>,
    symbol: Seq<char>,
    byte_offset: u64,
) -> RewriteView {
    if byte_offset == 0 {
        address_of(global, symbol, address_space::SHARED)
    } else {
        RewriteView {
            global,
            ops: seq![
                Inst::AddressOf { symbol, address_space: address_space::SHARED },
                Inst::Constant { width: 64, number: byte_offset },
                Inst::GetElementPtr {
                    base: Value::ResultOf(0),
                    index: Value::ResultOf(1),
                    elem_type: LlvmType::Integer(8),
                },
            ],
            replacement: Replacement::Op(2),
        }
    }
}

/// How a pointer into dynamic shared memory is lowered, and the declared pools that this
/// leaves behind. The alignment of the operation itself plays no part: the global has the
/// largest that the kernel asks for.
pub open spec fn lower_extern_shared(
    op: MirExternSharedOp,
    alignments: Map<Seq<char>, (Seq<char>, u64)>,
    pools: Map<Seq<char>, Seq<char>>,
) -> (Result<RewriteView, LowerCause>, Map<Seq<char>, Seq<char>>) {
    match enclosing_function(op.site) {
        Err(e) => (Err(e), pools),
        Ok(kernel) => {
            let (found, after) = dynamic_smem(kernel, op.site, alignments, pools);
            match found {
                Err(e) => (Err(e), after),
                Ok((symbol, global)) => (
                    Ok(address_in_shared(global, symbol, op.byte_offset)),
                    after,
                ),
            }
        },
    }
}

/// Lowers `mir.extern_shared` to an address in the dynamic shared memory of the kernel
/// around it. All uses in one kernel share one global, which is external and of no length.
pub fn convert_extern_shared_dc(
    op: &MirExternSharedOp,
    shared_globals: &mut SharedGlobalsMap,
    dynamic_smem_alignments: &DynamicSmemAlignmentMap,
) -> (r: Result<Rewrite, LowerError>)
    ensures
        ({
            let (result, pools) = lower_extern_shared(
                *op,
                dynamic_smem_alignments@,
                old(shared_globals)@.pools,
            );
            &&& outcome(r) == result
            &&& final(shared_globals)@ == (SharedTable { pools, ..old(shared_globals)@ })
        }),
{
    let func_name = match find_enclosing_function(&op.site) {
        Ok(name) => name,
        Err(e) => return Err(e),
    };
    let (symbol, global) = match get_or_create_extern_shared_global(
        &op.site,
        func_name.as_str(),
        shared_globals,
        dynamic_smem_alignments,
        op.alignment,
    ) {
        Ok(found) => found,
        Err(e) => return Err(e),
    };
    if op.byte_offset > 0 {
        let r = Rewrite {
            global,
            ops: vec![
                Inst::AddressOf { symbol, address_space: address_space::SHARED },
                Inst::Constant { width: 64, number: op.byte_offset },
                Inst::GetElementPtr {
                    base: Value::ResultOf(0),
                    index: Value::ResultOf(1),
                    elem_type: LlvmType::Integer(8),
                },
            ],
            replacement: Replacement::Op(2),
        };
        assert(r@.ops =~= address_in_shared(r@.global, symbol@, op.byte_offset).ops);
        Ok(r)
    } else {
        Ok(rewrite_address_of(global, symbol, address_space::SHARED))
    }
}

/// Finds the symbol of a kernel's dynamic shared memory, and makes its global the first
/// time. The alignment that this one use asks for plays no part.
pub fn get_or_create_extern_shared_global(
    site: &OpSite,
    func_name: &str,
    shared_globals: &mut SharedGlobalsMap,
    dynamic_smem_alignments: &DynamicSmemAlignmentMap,
    _requested_alignment: u64,
) -> (r: Result<(String, Option<GlobalVar<String>>), LowerError>)
    ensures
        ({
            let (result, pools) = dynamic_smem(
                func_name@,
                *site,
                dynamic_smem_alignments@,
                old(shared_globals)@.pools,
            );
            &&& match result {
                Err(e) => r matches Err(f) && f.cause() == e,
                Ok((symbol, None)) => r matches Ok((s, None)) && s@ == symbol,
                Ok((symbol, Some(g))) => r matches Ok((s, Some(global))) && s@ == symbol
                    && global@ == g,
            }
            &&& final(shared_globals)@ == (SharedTable { pools, ..old(shared_globals)@ })
        }),
{
    let (symbol, max_alignment) = match dynamic_smem_alignments.get(func_name) {
        Some(found) => found,
        None => return Err(LowerFailure::AlignmentNotComputed { kernel: func_name.to_owned() }),
    };
    if shared_globals.is_declared(func_name) {
        return Ok((symbol, None));
    }
    let block = match find_global_block(site) {
        Ok(block) => block,
        Err(e) => return Err(e),
    };
    let global = GlobalVar {
        symbol: symbol.clone(),
        ty: LlvmType::Array { elem: Box::new(LlvmType::Integer(8)), len: 0 },
        alignment: Some(max_alignment),
        address_space: address_space::SHARED,
        external: true,
        block,
    };
    shared_globals.declare(func_name.to_owned(), symbol.clone());
    Ok((symbol, Some(global)))
}

} // verus!
