//! Loads, stores, stack slots and pointer arithmetic.

use oxide_lower::address_space;
use oxide_lower::error::{ErrorKind, LowerError};
use oxide_lower::ir::{Inst, LlvmType, Operand, Operation, Replacement, Rewrite, Value};
use oxide_lower::memory::{
    convert_alloca, convert_load, convert_ptr_offset, convert_ref, convert_store,
};
use oxide_lower::types::{MirPtrType, TypeId, TypeObj, TypeRecord, TypeTable};

const I32: TypeId = TypeId(0);
const I64: TypeId = TypeId(1);
const MIR_PTR: TypeId = TypeId(2);
const LLVM_PTR: TypeId = TypeId(3);
const STRANGE: TypeId = TypeId(4);
const PTR_TO_STRANGE: TypeId = TypeId(5);

/// Integers of 32 and 64 bits, a generic MIR pointer to the first and its LLVM type, a type
/// without an LLVM counterpart, and a MIR pointer to that.
fn types() -> TypeTable {
    let pointer = |pointee: TypeId| {
        TypeObj::MirPtr(MirPtrType {
            pointee,
            address_space: address_space::GENERIC,
        })
    };
    TypeTable {
        types: vec![
            TypeRecord {
                obj: TypeObj::Integer { width: 32 },
                lowered: Ok(I32),
            },
            TypeRecord {
                obj: TypeObj::Integer { width: 64 },
                lowered: Ok(I64),
            },
            TypeRecord {
                obj: pointer(I32),
                lowered: Ok(LLVM_PTR),
            },
            TypeRecord {
                obj: TypeObj::Other,
                lowered: Ok(LLVM_PTR),
            },
            TypeRecord {
                obj: TypeObj::Other,
                lowered: Err("no LLVM type for the strange type".to_string()),
            },
            TypeRecord {
                obj: pointer(STRANGE),
                lowered: Ok(LLVM_PTR),
            },
        ],
    }
}

fn pointer_operand(id: usize, pointee: TypeId) -> Operand {
    Operand {
        id,
        ty: LLVM_PTR,
        mir_pointer: Some(MirPtrType {
            pointee,
            address_space: address_space::GENERIC,
        }),
    }
}

fn plain_operand(id: usize, ty: TypeId) -> Operand {
    Operand {
        id,
        ty,
        mir_pointer: None,
    }
}

fn operation(operands: Vec<Operand>, result_types: Vec<TypeId>) -> Operation {
    Operation {
        operands,
        result_types,
    }
}

fn count(r: &Rewrite, wanted: fn(&Inst<String>) -> bool) -> usize {
    r.ops.iter().filter(|op| wanted(op)).count()
}

fn is_alloca(op: &Inst<String>) -> bool {
    matches!(op, Inst::Alloca { .. })
}

fn is_store(op: &Inst<String>) -> bool {
    matches!(op, Inst::Store { .. })
}

fn is_load(op: &Inst<String>) -> bool {
    matches!(op, Inst::Load { .. })
}

fn failure(r: Result<Rewrite, LowerError>) -> (ErrorKind, String) {
    let e = r.expect_err("lowering should fail");
    (e.kind(), e.message())
}

#[test]
fn convert_alloca_lowers_to_llvm_alloca() {
    let types = types();
    let r = convert_alloca(&types, &operation(vec![], vec![MIR_PTR])).expect("lowering failed");
    assert_eq!(
        count(&r, is_alloca),
        1,
        "expected exactly one llvm.alloca"
    );
    let elem = r
        .ops
        .iter()
        .find_map(|op| match op {
            Inst::Alloca {
                elem_type: LlvmType::Handle(elem),
                ..
            } => Some(*elem),
            _ => None,
        })
        .unwrap();
    // The element type is that of the pointee.
    assert!(matches!(types.types[elem.0].obj, TypeObj::Integer { width: 32 }));
}

#[test]
fn convert_store_lowers_to_llvm_store() {
    // A pointer and a value of 32 bits.
    let op = operation(
        vec![pointer_operand(0, I32), plain_operand(1, I32)],
        vec![],
    );
    let r = convert_store(&op).expect("lowering failed");
    assert_eq!(count(&r, is_store), 1, "expected one llvm.store");
    // The original store is gone.
    assert_eq!(r.replacement, Replacement::Erase);
    // The order of operands is swapped: the address comes first in MIR.
    assert_eq!(
        r.ops,
        vec![Inst::Store {
            value: Value::Existing(1),
            address: Value::Existing(0),
        }],
        "operand 1 is ptr"
    );
}

#[test]
fn convert_load_lowers_to_llvm_load() {
    let op = operation(vec![pointer_operand(0, I32)], vec![I32]);
    let r = convert_load(&types(), &op).expect("lowering failed");
    assert_eq!(count(&r, is_load), 1);
    // The new load takes the place of the old one.
    assert_eq!(r.replacement, Replacement::Op(0));
    assert_eq!(
        r.ops[0],
        Inst::Load {
            address: Value::Existing(0),
            result_type: LlvmType::Handle(I32),
        }
    );
}

#[test]
fn convert_ref_lowers_to_alloca_then_store() {
    let op = operation(vec![plain_operand(0, I32)], vec![MIR_PTR]);
    let r = convert_ref(&op).expect("lowering failed");
    assert_eq!(count(&r, is_alloca), 1, "ref must materialize via alloca");
    assert_eq!(
        count(&r, is_store),
        1,
        "ref must store the value into the alloca"
    );
    // The address of the slot takes the place of the reference.
    assert_eq!(
        r.replacement,
        Replacement::Values(vec![Value::ResultOf(1)])
    );
    assert!(is_alloca(&r.ops[1]) && is_store(&r.ops[2]));
}

#[test]
fn convert_ptr_offset_lowers_to_gep_with_pointee_elem_type() {
    let types = types();
    let op = operation(
        vec![pointer_operand(0, I32), plain_operand(1, I64)],
        vec![MIR_PTR],
    );
    let r = convert_ptr_offset(&types, &op).expect("lowering failed");
    let elem = r
        .ops
        .iter()
        .find_map(|op| match op {
            Inst::GetElementPtr {
                elem_type: LlvmType::Handle(elem),
                ..
            } => Some(*elem),
            _ => None,
        })
        .expect("expected one llvm.gep");
    match types.types[elem.0].obj {
        TypeObj::Integer { width } => {
            assert_eq!(width, 32, "gep elem type must be i32 (pointee)")
        }
        _ => panic!("gep src_elem_type should be IntegerType"),
    }
}

#[test]
fn alloca_is_one_slot_and_stores_nothing() {
    let r = convert_alloca(&types(), &operation(vec![], vec![MIR_PTR])).unwrap();
    assert_eq!(
        r,
        Rewrite {
            global: None,
            ops: vec![
                Inst::Constant {
                    width: 32,
                    number: 1,
                },
                Inst::Alloca {
                    elem_type: LlvmType::Handle(I32),
                    count: Value::ResultOf(0),
                },
            ],
            replacement: Replacement::Op(1),
        }
    );
}

#[test]
fn ref_slot_has_the_type_of_the_value() {
    // A pointer is stored as it is, in a slot for pointers.
    let r = convert_ref(&operation(vec![pointer_operand(8, I32)], vec![MIR_PTR])).unwrap();
    assert_eq!(
        r.ops,
        vec![
            Inst::Constant {
                width: 32,
                number: 1,
            },
            Inst::Alloca {
                elem_type: LlvmType::Handle(LLVM_PTR),
                count: Value::ResultOf(0),
            },
            Inst::Store {
                value: Value::Existing(8),
                address: Value::ResultOf(1),
            },
        ]
    );
    assert_eq!(r.global, None);
}

#[test]
fn ptr_offset_without_a_mir_pointer_counts_bytes() {
    let op = operation(
        vec![plain_operand(4, LLVM_PTR), plain_operand(5, I64)],
        vec![MIR_PTR],
    );
    let r = convert_ptr_offset(&types(), &op).unwrap();
    assert_eq!(
        r,
        Rewrite {
            global: None,
            ops: vec![Inst::GetElementPtr {
                base: Value::Existing(4),
                index: Value::Existing(5),
                elem_type: LlvmType::Integer(8),
            }],
            replacement: Replacement::Op(0),
        }
    );
}

#[test]
fn operand_counts_are_checked() {
    let one = operation(vec![pointer_operand(0, I32)], vec![]);
    let three = operation(
        vec![
            pointer_operand(0, I32),
            plain_operand(1, I32),
            plain_operand(2, I32),
        ],
        vec![],
    );
    for op in [&one, &three] {
        assert_eq!(
            failure(convert_store(op)),
            (
                ErrorKind::InvalidInput,
                "Store operation requires exactly 2 operands".to_string()
            )
        );
        assert_eq!(
            failure(convert_ptr_offset(&types(), op)),
            (
                ErrorKind::InvalidInput,
                "PtrOffset requires exactly 2 operands".to_string()
            )
        );
    }
}

#[test]
fn alloca_needs_a_pointer_result() {
    assert_eq!(
        failure(convert_alloca(&types(), &operation(vec![], vec![I32]))),
        (
            ErrorKind::VerificationFailed,
            "MirAllocaOp result must be MirPtrType (enforced by verifier)".to_string()
        )
    );
}

#[test]
fn failed_type_conversions_are_reported() {
    let types = types();
    let expected = (
        ErrorKind::VerificationFailed,
        "no LLVM type for the strange type".to_string(),
    );
    let load = operation(vec![pointer_operand(0, STRANGE)], vec![STRANGE]);
    assert_eq!(failure(convert_load(&types, &load)), expected);
    let alloca = operation(vec![], vec![PTR_TO_STRANGE]);
    assert_eq!(failure(convert_alloca(&types, &alloca)), expected);
    let offset = operation(
        vec![pointer_operand(0, STRANGE), plain_operand(1, I64)],
        vec![PTR_TO_STRANGE],
    );
    assert_eq!(failure(convert_ptr_offset(&types, &offset)), expected);
}
