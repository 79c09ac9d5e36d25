//! The vectorised load.

use oxide_lower::ir::{Inst, LlvmType, Operand, Operation, Replacement, Value};
use oxide_lower::types::TypeId;
use oxide_lower::vmem::{convert_ld_global_v4_f32, LdGlobalV4F32Op};

#[test]
fn vector_load_is_inline_ptx_and_four_lanes() {
    let load = LdGlobalV4F32Op::new(Operation {
        operands: vec![Operand {
            id: 3,
            ty: TypeId(0),
            mir_pointer: None,
        }],
        result_types: vec![TypeId(1), TypeId(1), TypeId(1), TypeId(1)],
    });
    let r = convert_ld_global_v4_f32(&load).unwrap();
    assert_eq!(r.global, None);
    assert_eq!(
        r.ops[0],
        Inst::InlineAsm {
            lane_type: LlvmType::Float32,
            lanes: 4,
            operand: Value::Existing(3),
            template: "{ .reg .u64 %gp; cvta.to.global.u64 %gp, $4; \
                       ld.global.v4.f32 {$0,$1,$2,$3}, [%gp]; }"
                .to_string(),
            constraints: "=f,=f,=f,=f,l,~{memory}".to_string(),
            convergent: false,
        }
    );
    let lanes: Vec<Inst<String>> = (0..4)
        .map(|field| Inst::ExtractValue {
            aggregate: Value::ResultOf(0),
            field,
        })
        .collect();
    assert_eq!(r.ops[1..], lanes[..]);
    assert_eq!(
        r.replacement,
        Replacement::Values(vec![
            Value::ResultOf(1),
            Value::ResultOf(2),
            Value::ResultOf(3),
            Value::ResultOf(4),
        ])
    );
}
