//! What the vectorised load does after lowering.

use crate::error::LowerError;
use crate::ir::{Inst, LlvmType, Operation, Rewrite, Value};
use crate::laws::machine::{
    lemma_ops_of_view, lemma_run, placeholders, results, run_all, vector_read,
    vector_read_constraints, Surroundings,
};
use crate::vmem::{convert_ld_global_v4_f32, load_constraints, load_template, LdGlobalV4F32Op};
use vstd::prelude::*;

verus! {

proof fn lemma_vector_texts()
    ensures
        load_template() == vector_read(4),
        load_constraints() == vector_read_constraints(4),
{
    reveal_strlit(
        "{ .reg .u64 %gp; cvta.to.global.u64 %gp, $4; ld.global.v4.f32 {$0,$1,$2,$3}, [%gp]; }",
    );
    reveal_strlit("{ .reg .u64 %gp; cvta.to.global.u64 %gp, $");
    reveal_strlit("; ld.global.v");
    reveal_strlit(".f32 {");
    reveal_strlit("}, [%gp]; }");
    reveal_strlit("=f,=f,=f,=f,l,~{memory}");
    reveal_strlit("l,~{memory}");
    reveal_strlit("=f,");
    reveal_with_fuel(placeholders, 5);
    reveal_with_fuel(vector_read_constraints, 5);
    assert(placeholders(4) =~= seq!['$', '0', ',', '$', '1', ',', '$', '2', ',', '$', '3']);
    assert(load_template() =~= vector_read(4));
    assert(load_constraints() =~= vector_read_constraints(4));
}

/// Wrapping an operation as a vectorised load changes nothing about it.
pub proof fn vector_load_is_its_operation(op: Operation, r: LdGlobalV4F32Op)
    requires
        call_ensures(LdGlobalV4F32Op::new, (op,), r),
    ensures
        r.op == op,
{
}

/// The four results of the vectorised load are the four floats from the address in its
/// operand on, each four bytes after the one before. Memory stays as it was. The load is a
/// matter of one thread, so it is not convergent, and it never fails.
pub proof fn vector_load_reads_four_floats(
    load: &LdGlobalV4F32Op,
    r: Result<Rewrite, LowerError>,
    env: Surroundings,
    memory: Map<int, int>,
)
    requires
        load.op.operands@.len() > 0,
        call_ensures(convert_ld_global_v4_f32, (load,), r),
    ensures
        ({
            let address = (env.values)(load.op.operands@[0].id);
            &&& r matches Ok(w)
            &&& w.global is None
            &&& w.ops@.len() == 5
            &&& w.replacement is Values
            &&& w.ops@[0] matches Inst::InlineAsm { convergent, lane_type, .. } && !convergent
                && lane_type == LlvmType::Float32
            &&& run_all(env, memory, w) matches Some(m)
            &&& m.memory == memory
            &&& m.slots.len() == 0
            &&& results(env, m, w) == Seq::new(4, |i: int| Some(memory[address + 4 * i]))
        }),
{
    let w = r->Ok_0;
    let address = (env.values)(load.op.operands@[0].id);
    lemma_vector_texts();
    lemma_ops_of_view(w);
    lemma_run(env, memory, w);
    assert(w@.ops[0] == w.ops@[0]@ && w@.ops[1] == w.ops@[1]@ && w@.ops[2] == w.ops@[2]@
        && w@.ops[3] == w.ops@[3]@ && w@.ops[4] == w.ops@[4]@);
    let vs = w.replacement->Values_0@;
    assert(vs =~= seq![
        Value::ResultOf(1),
        Value::ResultOf(2),
        Value::ResultOf(3),
        Value::ResultOf(4),
    ]);
    let m = run_all(env, memory, w)->Some_0;
    assert(results(env, m, w) =~= Seq::new(4, |i: int| Some(memory[address + 4 * i])));
}

} // verus!
