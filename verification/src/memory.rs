//! Lowering of loads, stores, stack slots and pointer arithmetic.
//!
//! | MIR operation    | LLVM operations                     |
//! |------------------|-------------------------------------|
//! | `mir.store`      | `store`                             |
//! | `mir.load`       | `load`                              |
//! | `mir.alloca`     | `alloca`                            |
//! | `mir.ref`        | `alloca`, `store`                   |
//! | `mir.ptr_offset` | `getelementptr`                     |

use crate::error::{LowerError, LowerCause, LowerFailure};
use crate::ir::{outcome, Inst, LlvmType, Operation, Replacement, Rewrite, RewriteView, Value};
use crate::types::TypeTable;
use vstd::prelude::*;

verus! {

/// How a store is lowered: the operands are the address and the value, in this order.
pub open spec fn lower_store(op: Operation) -> Result<RewriteView, LowerCause> {
    if op.operands@.len() == 2 {
        Ok(
            RewriteView {
                global: None,
                ops: seq![
                    Inst::Store {
                        value: Value::Existing(op.operands@[1].id),
                        address: Value::Existing(op.operands@[0].id),
                    },
                ],
                replacement: Replacement::Erase,
            },
        )
    } else {
        Err(LowerFailure::StoreOperands)
    }
}

/// Lowers `mir.store`. Its operands are the address and the value to store there, in this
/// order. Nothing takes its place, as a store has no result.
pub fn convert_store(op: &Operation) -> (r: Result<Rewrite, LowerError>)
    ensures
        outcome(r) == lower_store(*op),
{
    if op.operands.len() != 2 {
        return Err(LowerFailure::StoreOperands);
    }
    let r = Rewrite {
        global: None,
        ops: vec![
            Inst::Store {
                value: Value::Existing(op.operands[1].id),
                address: Value::Existing(op.operands[0].id),
            },
        ],
        replacement: Replacement::Erase,
    };
    assert(r@.ops =~= lower_store(*op)->Ok_0.ops);
    Ok(r)
}

/// How a load is lowered: the value read has the LLVM type of the MIR result.
pub open spec fn lower_load(ctx: TypeTable, op: Operation) -> Result<RewriteView, LowerCause> {
    match ctx.lowered(op.result_types@[0]) {
        Err(e) => Err(LowerFailure::TypeConversion(e)),
        Ok(ty) => Ok(
            RewriteView {
                global: None,
                ops: seq![
                    Inst::Load {
                        address: Value::Existing(op.operands@[0].id),
                        result_type: LlvmType::Handle(ty),
                    },
                ],
                replacement: Replacement::Op(0),
            },
        ),
    }
}

/// Lowers `mir.load`: one pointer operand, and a result whose type says what is read.
pub fn convert_load(ctx: &TypeTable, op: &Operation) -> (r: Result<Rewrite, LowerError>)
    requires
        op.operands@.len() > 0,
        op.result_types@.len() > 0,
        ctx.has(op.result_types@[0]),
    ensures
        outcome(r) == lower_load(*ctx, *op),
{
    let ptr = op.operands[0].id;
    let llvm_ty = match ctx.convert_type(op.result_types[0]) {
        Ok(ty) => ty,
        Err(e) => return Err(e),
    };
    let r = Rewrite {
        global: None,
        ops: vec![
            Inst::Load {
                address: Value::Existing(ptr),
                result_type: LlvmType::Handle(llvm_ty),
            },
        ],
        replacement: Replacement::Op(0),
    };
    assert(r@.ops =~= lower_load(*ctx, *op)->Ok_0.ops);
    Ok(r)
}

/// How an alloca is lowered: one slot of the LLVM type of what the MIR result points to,
/// with nothing stored in it.
pub open spec fn lower_alloca(ctx: TypeTable, op: Operation) -> Result<RewriteView, LowerCause> {
    match ctx.mir_ptr(op.result_types@[0]) {
        None => Err(LowerFailure::AllocaResultNotPointer),
        Some(ptr) => match ctx.lowered(ptr.pointee) {
            Err(e) => Err(LowerFailure::TypeConversion(e)),
            Ok(ty) => Ok(
                RewriteView {
                    global: None,
                    ops: seq![
                        Inst::Constant { width: 32, number: 1 },
                        Inst::Alloca {
                            elem_type: LlvmType::Handle(ty),
                            count: Value::ResultOf(0),
                        },
                    ],
                    replacement: Replacement::Op(1),
                },
            ),
        },
    }
}

/// Lowers `mir.alloca`. The result pointer says what the slot holds; filling the slot is
/// left to later stores.
pub fn convert_alloca(ctx: &TypeTable, op: &Operation) -> (r: Result<Rewrite, LowerError>)
    requires
        ctx.wf(),
        op.result_types@.len() > 0,
        ctx.has(op.result_types@[0]),
    ensures
        outcome(r) == lower_alloca(*ctx, *op),
{
    let mir_pointee = match ctx.mir_ptr_type(op.result_types[0]) {
        Some(ptr) => ptr.pointee,
        None => return Err(LowerFailure::AllocaResultNotPointer),
    };
    let llvm_pointee = match ctx.convert_type(mir_pointee) {
        Ok(ty) => ty,
        Err(e) => return Err(e),
    };
    let r = Rewrite {
        global: None,
        ops: vec![
            Inst::Constant { width: 32, number: 1 },
            Inst::Alloca { elem_type: LlvmType::Handle(llvm_pointee), count: Value::ResultOf(0) },
        ],
        replacement: Replacement::Op(1),
    };
    assert(r@.ops =~= lower_alloca(*ctx, *op)->Ok_0.ops);
    Ok(r)
}

/// How a reference is lowered: the value goes into a stack slot of its own, whose address
/// is the result.
pub open spec fn lower_ref(op: Operation) -> RewriteView {
    RewriteView {
        global: None,
        ops: seq![
            Inst::Constant { width: 32, number: 1 },
            Inst::Alloca {
                elem_type: LlvmType::Handle(op.operands@[0].ty),
                count: Value::ResultOf(0),
            },
            Inst::Store {
                value: Value::Existing(op.operands@[0].id),
                address: Value::ResultOf(1),
            },
        ],
        replacement: Replacement::Values(seq![Value::ResultOf(1)]),
    }
}

/// Lowers `mir.ref`, which asks for the address of an SSA value. A value has no address,
/// so it is stored in a fresh stack slot, whatever its type.
pub fn convert_ref(op: &Operation) -> (r: Result<Rewrite, LowerError>)
    requires
        op.operands@.len() > 0,
    ensures
        outcome(r) == Ok::<RewriteView, LowerCause>(lower_ref(*op)),
{
    let operand = op.operands[0];
    let r = Rewrite {
        global: None,
        ops: vec![
            Inst::Constant { width: 32, number: 1 },
            Inst::Alloca { elem_type: LlvmType::Handle(operand.ty), count: Value::ResultOf(0) },
            Inst::Store { value: Value::Existing(operand.id), address: Value::ResultOf(1) },
        ],
        replacement: Replacement::Values(vec![Value::ResultOf(1)]),
    };
    assert(r@.ops =~= lower_ref(*op).ops);
    assert(r@.replacement->Values_0 =~= lower_ref(*op).replacement->Values_0);
    Ok(r)
}

/// How a pointer offset is lowered: the offset counts elements of the LLVM type of what
/// the pointer points to, or bytes if no MIR pointer type is known for it.
pub open spec fn lower_ptr_offset(ctx: TypeTable, op: Operation) -> Result<
    RewriteView,
    LowerCause,
> {
    if op.operands@.len() != 2 {
        Err(LowerFailure::PtrOffsetOperands)
    } else {
        let elem = match op.operands@[0].mir_pointer {
            Some(ptr) => match ctx.lowered(ptr.pointee) {
                Ok(ty) => Ok(LlvmType::Handle(ty)),
                Err(e) => Err(e),
            },
            None => Ok(LlvmType::Integer(8)),
        };
        match elem {
            Err(e) => Err(LowerFailure::TypeConversion(e)),
            Ok(elem_type) => Ok(
                RewriteView {
                    global: None,
                    ops: seq![
                        Inst::GetElementPtr {
                            base: Value::Existing(op.operands@[0].id),
                            index: Value::Existing(op.operands@[1].id),
                            elem_type,
                        },
                    ],
                    replacement: Replacement::Op(0),
                },
            ),
        }
    }
}

/// Lowers `mir.ptr_offset`. Its operands are a pointer and an integer index.
pub fn convert_ptr_offset(ctx: &TypeTable, op: &Operation) -> (r: Result<Rewrite, LowerError>)
    requires
        op.operands@.len() == 2 && op.operands@[0].mir_pointer is Some ==> ctx.has(
            op.operands@[0].mir_pointer->Some_0.pointee,
        ),
    ensures
        outcome(r) == lower_ptr_offset(*ctx, *op),
{
    if op.operands.len() != 2 {
        return Err(LowerFailure::PtrOffsetOperands);
    }
    let ptr = op.operands[0];
    let offset = op.operands[1];
    let elem_type = match ptr.mir_pointer {
        Some(mir_ptr) => match ctx.convert_type(mir_ptr.pointee) {
            Ok(ty) => LlvmType::Handle(ty),
            Err(e) => return Err(e),
        },
        None => LlvmType::Integer(8),
    };
    let r = Rewrite {
        global: None,
        ops: vec![
            Inst::GetElementPtr {
                base: Value::Existing(ptr.id),
                index: Value::Existing(offset.id),
                elem_type,
            },
        ],
        replacement: Replacement::Op(0),
    };
    assert(r@.ops =~= lower_ptr_offset(*ctx, *op)->Ok_0.ops);
    Ok(r)
}

} // verus!
