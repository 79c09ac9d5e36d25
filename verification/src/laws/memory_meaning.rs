//! What loads, stores, stack slots, references and pointer offsets do after lowering.

use crate::error::LowerError;
use crate::ir::{Inst, LlvmType, Operation, Replacement, Rewrite, Value};
use crate::laws::machine::{
    lemma_bytes, lemma_ops_of_view, lemma_run, results, run_all, wrap, Surroundings,
};
use crate::memory::{convert_alloca, convert_load, convert_ptr_offset, convert_ref, convert_store};
use crate::types::{TypeId, TypeObj, TypeTable};
use vstd::arithmetic::power2::lemma2_to64;
use vstd::prelude::*;

verus! {

/// Whether lowering fails because `ty` does not convert, with the reason why.
pub open spec fn fails_to_convert(
    ctx: TypeTable,
    ty: TypeId,
    r: Result<Rewrite, LowerError>,
) -> bool {
    ctx.types@[ty.0 as int].lowered matches Err(reason) && r matches Err(
        LowerError::TypeConversion(text),
    ) && text@ == reason@
}

/// Whether a rewrite consists of `n` operations and no global.
pub open spec fn is_only(w: Rewrite, n: nat) -> bool {
    w.global is None && w.ops@.len() == n
}

/// A store with an address and a value writes the value there and changes nothing else, and
/// has no result. With any other number of operands it fails.
pub proof fn store_writes_its_value(
    op: &Operation,
    r: Result<Rewrite, LowerError>,
    env: Surroundings,
    memory: Map<int, int>,
)
    requires
        call_ensures(convert_store, (op,), r),
    ensures
        if op.operands@.len() == 2 {
            &&& r matches Ok(w)
            &&& is_only(w, 1)
            &&& w.replacement is Erase
            &&& run_all(env, memory, w) matches Some(m)
            &&& m.slots.len() == 0
            &&& m.memory == memory.insert(
                (env.values)(op.operands@[0].id),
                (env.values)(op.operands@[1].id),
            )
        } else {
            r matches Err(e) && e is StoreOperands
        },
{
    if r is Ok {
        let w = r->Ok_0;
        lemma_ops_of_view(w);
        lemma_run(env, memory, w);
        assert(w@.ops[0] == w.ops@[0]@);
    }
}

/// A load yields what the memory holds at its address, as the LLVM type of its result, and
/// changes nothing. It fails exactly if that type does not convert.
pub proof fn load_reads_its_address(
    ctx: &TypeTable,
    op: &Operation,
    r: Result<Rewrite, LowerError>,
    env: Surroundings,
    memory: Map<int, int>,
)
    requires
        op.operands@.len() > 0,
        op.result_types@.len() > 0,
        ctx.has(op.result_types@[0]),
        call_ensures(convert_load, (ctx, op), r),
    ensures
        match ctx.types@[op.result_types@[0].0 as int].lowered {
            Err(_) => fails_to_convert(*ctx, op.result_types@[0], r),
            Ok(ty) => {
                &&& r matches Ok(w)
                &&& is_only(w, 1)
                &&& w.replacement == Replacement::<Vec<Value>>::Op(0)
                &&& w.ops@[0] matches Inst::Load { result_type, .. } && result_type
                    == LlvmType::Handle(ty)
                &&& run_all(env, memory, w) matches Some(m)
                &&& m.memory == memory
                &&& m.slots.len() == 0
                &&& results(env, m, w) == seq![Some(memory[(env.values)(op.operands@[0].id)])]
            },
        },
{
    if r is Ok {
        let w = r->Ok_0;
        lemma_ops_of_view(w);
        lemma_run(env, memory, w);
        assert(w@.ops[0] == w.ops@[0]@);
    }
}

/// An alloca makes one stack slot for one element of the LLVM type of what its result points
/// to, yields the address of the slot and writes nothing. It fails exactly if its result is
/// no MIR pointer, or that type does not convert.
pub proof fn alloca_makes_one_slot(
    ctx: &TypeTable,
    op: &Operation,
    r: Result<Rewrite, LowerError>,
    env: Surroundings,
    memory: Map<int, int>,
)
    requires
        ctx.wf(),
        op.result_types@.len() > 0,
        ctx.has(op.result_types@[0]),
        call_ensures(convert_alloca, (ctx, op), r),
    ensures
        match ctx.types@[op.result_types@[0].0 as int].obj {
            TypeObj::MirPtr(ptr) => match ctx.types@[ptr.pointee.0 as int].lowered {
                Err(_) => fails_to_convert(*ctx, ptr.pointee, r),
                Ok(ty) => {
                    &&& r matches Ok(w)
                    &&& is_only(w, 2)
                    &&& w.replacement == Replacement::<Vec<Value>>::Op(1)
                    &&& w.ops@[0] matches Inst::Constant { width, .. } && width == 32
                    &&& run_all(env, memory, w) matches Some(m)
                    &&& m.memory == memory
                    &&& m.slots == seq![(LlvmType::Handle(ty), 1int)]
                    &&& results(env, m, w) == seq![Some((env.slot_at)(0))]
                },
            },
            _ => r matches Err(e) && e is AllocaResultNotPointer,
        },
{
    lemma2_to64();
    if r is Ok {
        let w = r->Ok_0;
        lemma_ops_of_view(w);
        lemma_run(env, memory, w);
        assert(w@.ops[0] == w.ops@[0]@ && w@.ops[1] == w.ops@[1]@);
    }
}

/// A reference makes one stack slot of its operand's type, yields the address of the slot,
/// and leaves the operand's value there and everything else as it was. It never fails.
pub proof fn reference_holds_its_value(
    op: &Operation,
    r: Result<Rewrite, LowerError>,
    env: Surroundings,
    memory: Map<int, int>,
)
    requires
        op.operands@.len() > 0,
        call_ensures(convert_ref, (op,), r),
    ensures
        ({
            &&& r matches Ok(w)
            &&& is_only(w, 3)
            &&& w.replacement is Values
            &&& w.ops@[0] matches Inst::Constant { width, .. } && width == 32
            &&& run_all(env, memory, w) matches Some(m)
            &&& m.memory == memory.insert((env.slot_at)(0), (env.values)(op.operands@[0].id))
            &&& m.slots == seq![(LlvmType::Handle(op.operands@[0].ty), 1int)]
            &&& results(env, m, w) == seq![Some((env.slot_at)(0))]
        }),
{
    lemma2_to64();
    let w = r->Ok_0;
    lemma_ops_of_view(w);
    lemma_run(env, memory, w);
    assert(w@.ops[0] == w.ops@[0]@ && w@.ops[1] == w.ops@[1]@ && w@.ops[2] == w.ops@[2]@);
    let m = run_all(env, memory, w)->Some_0;
    assert(w.replacement->Values_0@ == seq![Value::ResultOf(1)]);
    assert(results(env, m, w) =~= seq![Some((env.slot_at)(0))]);
}

/// A pointer offset yields the address in its first operand plus the integer in its second
/// times the size of an element, and touches no memory. An element is of the LLVM type of
/// what the first operand points to if a MIR pointer type is known for it, else one byte. It
/// fails exactly if there are not two operands, or that type does not convert.
pub proof fn pointer_offset_counts_elements(
    ctx: &TypeTable,
    op: &Operation,
    r: Result<Rewrite, LowerError>,
    env: Surroundings,
    memory: Map<int, int>,
)
    requires
        op.operands@.len() == 2 && op.operands@[0].mir_pointer is Some ==> ctx.has(
            op.operands@[0].mir_pointer->Some_0.pointee,
        ),
        call_ensures(convert_ptr_offset, (ctx, op), r),
    ensures
        if op.operands@.len() != 2 {
            r matches Err(e) && e is PtrOffsetOperands
        } else {
            let base = (env.values)(op.operands@[0].id);
            let index = (env.values)(op.operands@[1].id);
            match op.operands@[0].mir_pointer {
                Some(ptr) => match ctx.types@[ptr.pointee.0 as int].lowered {
                    Err(_) => fails_to_convert(*ctx, ptr.pointee, r),
                    Ok(ty) => {
                        &&& r matches Ok(w)
                        &&& offsets_by(w, LlvmType::Handle(ty))
                        &&& run_all(env, memory, w) matches Some(m)
                        &&& m.memory == memory
                        &&& results(env, m, w) == seq![Some(wrap(base + index * (env.sizes)(ty)))]
                    },
                },
                None => {
                    &&& r matches Ok(w)
                    &&& offsets_by(w, LlvmType::Integer(8))
                    &&& run_all(env, memory, w) matches Some(m)
                    &&& m.memory == memory
                    &&& results(env, m, w) == seq![Some(wrap(base + index))]
                },
            }
        },
{
    if r is Ok {
        let w = r->Ok_0;
        lemma_ops_of_view(w);
        lemma_run(env, memory, w);
        assert(w@.ops[0] == w.ops@[0]@);
        lemma_bytes(env, (env.values)(op.operands@[1].id));
    }
}

/// Whether a rewrite is one address computation over elements of `elem`.
pub open spec fn offsets_by(w: Rewrite, elem: LlvmType) -> bool {
    &&& is_only(w, 1)
    &&& w.replacement == Replacement::<Vec<Value>>::Op(0)
    &&& w.ops@[0] matches Inst::GetElementPtr { elem_type, .. } && elem_type == elem
}

} // verus!
