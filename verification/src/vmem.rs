//! The vectorised load from global memory: four `f32` in one transaction of 128 bits.
//!
//! | Operation         | PTX                                       |
//! |-------------------|-------------------------------------------|
//! | `LdGlobalV4F32Op` | `cvta.to.global.u64` + `ld.global.v4.f32` |

use crate::error::{LowerError, LowerCause};
use crate::ir::{outcome, Inst, LlvmType, Operation, Replacement, Rewrite, RewriteView, Value};
use vstd::prelude::*;

verus! {

/// `nvvm.ld_global_v4_f32`. The one operand is a generic pointer, which must be aligned to
/// 16 bytes on the device; the four results are the lanes that were read, in order.
#[derive(Debug)]
pub struct LdGlobalV4F32Op {
    pub op: Operation,
}

impl LdGlobalV4F32Op {
    /// Regards an operation as a vectorised load.
    pub fn new(op: Operation) -> (r: Self)
        ensures
            r.op == op,
    {
        LdGlobalV4F32Op { op }
    }

    /// One operand and four results.
    pub open spec fn wf(self) -> bool {
        &&& self.op.operands@.len() == 1
        &&& self.op.result_types@.len() == 4
    }
}

/// The PTX of the load: the generic pointer is resolved to the global window first.
pub open spec fn load_template() -> Seq<char> {
    "{ .reg .u64 %gp; cvta.to.global.u64 %gp, $4; ld.global.v4.f32 {$0,$1,$2,$3}, [%gp]; }"@
}

/// Four float registers out, one address in. The memory clobber keeps the load in order
/// with other accesses.
pub open spec fn load_constraints() -> Seq<char> {
    "=f,=f,=f,=f,l,~{memory}"@
}

/// How the load is lowered: inline PTX that any thread may run on its own, and the four
/// lanes taken out of its result.
pub open spec fn lower_ld_global_v4_f32(op: Operation) -> RewriteView {
    RewriteView {
        global: None,
        ops: seq![
            Inst::InlineAsm {
                lane_type: LlvmType::Float32,
                lanes: 4,
                operand: Value::Existing(op.operands@[0].id),
                template: load_template(),
                constraints: load_constraints(),
                convergent: false,
            },
        ] + Seq::new(
            4,
            |i: int| Inst::ExtractValue { aggregate: Value::ResultOf(0), field: i as u32 },
        ),
        replacement: Replacement::Values(Seq::new(4, |i: int| Value::ResultOf((i + 1) as usize))),
    }
}

/// Lowers `nvvm.ld_global_v4_f32` to inline PTX.
pub fn convert_ld_global_v4_f32(load: &LdGlobalV4F32Op) -> (r: Result<Rewrite, LowerError>)
    requires
        load.op.operands@.len() > 0,
    ensures
        outcome(r) == Ok::<RewriteView, LowerCause>(
            lower_ld_global_v4_f32(load.op),
        ),
{
    let mut ops = vec![
        Inst::InlineAsm {
            lane_type: LlvmType::Float32,
            lanes: 4,
            operand: Value::Existing(load.op.operands[0].id),
            template:
                "{ .reg .u64 %gp; cvta.to.global.u64 %gp, $4; ld.global.v4.f32 {$0,$1,$2,$3}, [%gp]; }"
                .to_owned(),
            constraints: "=f,=f,=f,=f,l,~{memory}".to_owned(),
            convergent: false,
        },
    ];
    let ghost asm_op = ops@[0];
    let mut extracted_values: Vec<Value> = Vec::new();
    for i in 0..4u32
        invariant
            ops@.len() == i + 1,
            ops@[0] == asm_op,
            forall|k: int|
                1 <= k < ops@.len() ==> (#[trigger] ops@[k])@ == (Inst::<Seq<char>>::ExtractValue {
                    aggregate: Value::ResultOf(0),
                    field: (k - 1) as u32,
                }),
            extracted_values@ == Seq::new(i as nat, |k: int| Value::ResultOf((k + 1) as usize)),
    {
        extracted_values.push(Value::ResultOf(ops.len()));
        ops.push(Inst::ExtractValue { aggregate: Value::ResultOf(0), field: i });
    }
    let r = Rewrite { global: None, ops, replacement: Replacement::Values(extracted_values) };
    assert(r@.ops =~= lower_ld_global_v4_f32(load.op).ops);
    Ok(r)
}

} // verus!
