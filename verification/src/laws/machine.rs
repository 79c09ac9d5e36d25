//! What the operations of a rewrite do when they run.

use crate::ir::{Inst, LlvmType, Replacement, Rewrite, Value, ValueId};
use crate::types::TypeId;
use vstd::arithmetic::power2::{lemma2_to64, pow2};
use vstd::prelude::*;

verus! {

/// What surrounds a rewrite when it runs: the number that each existing value holds, the
/// address of each global, the size of each type of the program in bytes, and the address of
/// the stack slot made as the n-th.
pub struct Surroundings {
    pub values: spec_fn(ValueId) -> int,
    pub addresses: spec_fn(Seq<char>) -> int,
    pub sizes: spec_fn(TypeId) -> int,
    pub slot_at: spec_fn(nat) -> int,
}

/// What an operation yields: a number, or the fields of an aggregate.
pub enum Datum {
    Number(int),
    Fields(Seq<int>),
}

/// The memory, the stack slots made so far with their element type and count, and what each
/// operation has yielded. A store yields no fields.
pub struct Machine {
    pub memory: Map<int, int>,
    pub slots: Seq<(LlvmType, int)>,
    pub results: Seq<Datum>,
}

/// Addresses have 64 bits.
pub open spec fn wrap(address: int) -> int {
    address % 0x1_0000_0000_0000_0000
}

/// The lowest `width` bits of `number`, read as a signed integer.
pub open spec fn signed(width: u32, number: u64) -> int {
    let span = pow2(width as nat) as int;
    let low = number as int % span;
    if 2 * low < span {
        low
    } else {
        low - span
    }
}

/// The size of a type in bytes.
pub open spec fn size_of(env: Surroundings, ty: LlvmType) -> int
    decreases ty,
{
    match ty {
        LlvmType::Handle(id) => (env.sizes)(id),
        LlvmType::Integer(width) => (width as int + 7) / 8,
        LlvmType::Float32 => 4,
        LlvmType::Array { elem, len } => len * size_of(env, *elem),
    }
}

/// The number that a value holds.
pub open spec fn number(env: Surroundings, m: Machine, v: Value) -> Option<int> {
    match v {
        Value::Existing(id) => Some((env.values)(id)),
        Value::ResultOf(i) => if i < m.results.len() {
            match m.results[i as int] {
                Datum::Number(n) => Some(n),
                Datum::Fields(_) => None,
            }
        } else {
            None
        },
    }
}

/// The placeholders for the first `n` operands of inline assembly, `n` below ten.
pub open spec fn placeholders(n: nat) -> Seq<char>
    decreases n,
{
    if n <= 1 {
        seq!['$', '0']
    } else {
        placeholders((n - 1) as nat) + seq![',', '$', (('0' as int) + n - 1) as char]
    }
}

/// PTX that reads `n` contiguous floats from the generic pointer behind its outputs.
pub open spec fn vector_read(n: nat) -> Seq<char> {
    let count = seq![(('0' as int) + n) as char];
    "{ .reg .u64 %gp; cvta.to.global.u64 %gp, $"@ + count + "; ld.global.v"@ + count + ".f32 {"@
        + placeholders(n) + "}, [%gp]; }"@
}

/// The constraints of such PTX: `n` float registers out, one address in, and a clobber that
/// keeps it in order with other accesses of memory.
pub open spec fn vector_read_constraints(n: nat) -> Seq<char>
    decreases n,
{
    if n == 0 {
        "l,~{memory}"@
    } else {
        "=f,"@ + vector_read_constraints((n - 1) as nat)
    }
}

/// The machine after one more operation. `None` if the operation uses what does not exist,
/// is a constant that does not fit its width, or is assembly other than a vector read.
pub open spec fn step(env: Surroundings, m: Machine, op: Inst<String>) -> Option<Machine> {
    match op {
        Inst::Constant { width, number } => if number < pow2(width as nat) {
            Some(Machine { results: m.results.push(Datum::Number(signed(width, number))), ..m })
        } else {
            None
        },
        Inst::Alloca { elem_type, count } => match number(env, m, count) {
            Some(c) => Some(
                Machine {
                    slots: m.slots.push((elem_type, c)),
                    results: m.results.push(Datum::Number((env.slot_at)(m.slots.len()))),
                    ..m
                },
            ),
            None => None,
        },
        Inst::Store { value, address } => match (number(env, m, value), number(env, m, address)) {
            (Some(v), Some(a)) => Some(
                Machine {
                    memory: m.memory.insert(a, v),
                    results: m.results.push(Datum::Fields(Seq::empty())),
                    ..m
                },
            ),
            _ => None,
        },
        Inst::Load { address, .. } => match number(env, m, address) {
            Some(a) => Some(Machine { results: m.results.push(Datum::Number(m.memory[a])), ..m }),
            None => None,
        },
        Inst::GetElementPtr { base, index, elem_type } => match (
            number(env, m, base),
            number(env, m, index),
        ) {
            (Some(b), Some(i)) => Some(
                Machine {
                    results: m.results.push(Datum::Number(wrap(b + i * size_of(env, elem_type)))),
                    ..m
                },
            ),
            _ => None,
        },
        Inst::AddressOf { symbol, .. } => Some(
            Machine { results: m.results.push(Datum::Number((env.addresses)(symbol@))), ..m },
        ),
        Inst::InlineAsm { lane_type, lanes, operand, template, constraints, convergent } =>
            match number(env, m, operand) {
            Some(a) => if template@ == vector_read(lanes as nat) && constraints@
                == vector_read_constraints(lanes as nat) && lane_type == LlvmType::Float32 {
                Some(
                    Machine {
                        results: m.results.push(
                            Datum::Fields(Seq::new(lanes as nat, |i: int| m.memory[a + 4 * i])),
                        ),
                        ..m
                    },
                )
            } else {
                None
            },
            None => None,
        },
        Inst::ExtractValue { aggregate, field } => match aggregate {
            Value::ResultOf(i) => if i < m.results.len() && (m.results[i as int] matches
                Datum::Fields(fields) && field < fields.len()) {
                Some(
                    Machine {
                        results: m.results.push(
                            Datum::Number(m.results[i as int]->Fields_0[field as int]),
                        ),
                        ..m
                    },
                )
            } else {
                None
            },
            Value::Existing(_) => None,
        },
    }
}

/// The machine before any operation has run.
pub open spec fn start(memory: Map<int, int>) -> Machine {
    Machine { memory, slots: Seq::empty(), results: Seq::empty() }
}

/// The machine after one more operation, if it has come that far.
pub open spec fn go_on(env: Surroundings, m: Option<Machine>, op: Inst<String>) -> Option<
    Machine,
> {
    match m {
        Some(m) => step(env, m, op),
        None => None,
    }
}

/// The machine after the first `n` operations, begun on `memory`.
pub open spec fn run(
    env: Surroundings,
    memory: Map<int, int>,
    ops: Seq<Inst<String>>,
    n: nat,
) -> Option<Machine>
    decreases n,
{
    if n == 0 {
        Some(start(memory))
    } else {
        go_on(env, run(env, memory, ops, (n - 1) as nat), ops[n - 1])
    }
}

/// The machine after all operations of a rewrite.
pub open spec fn run_all(
    env: Surroundings,
    memory: Map<int, int>,
    rewrite: Rewrite,
) -> Option<Machine> {
    run(env, memory, rewrite.ops@, rewrite.ops@.len())
}

/// The numbers that take the place of the lowered operation's results.
pub open spec fn results(env: Surroundings, m: Machine, rewrite: Rewrite) -> Seq<Option<int>> {
    match rewrite.replacement {
        Replacement::Erase => Seq::empty(),
        Replacement::Op(i) => seq![number(env, m, Value::ResultOf(i))],
        Replacement::Values(vs) => vs@.map_values(|v: Value| number(env, m, v)),
    }
}

/// Short rewrites, operation by operation.
pub(crate) proof fn lemma_run(env: Surroundings, memory: Map<int, int>, rewrite: Rewrite)
    ensures
        ({
            let ops = rewrite.ops@;
            let first = step(env, start(memory), ops[0]);
            let second = go_on(env, first, ops[1]);
            let third = go_on(env, second, ops[2]);
            let fifth = go_on(env, go_on(env, third, ops[3]), ops[4]);
            &&& ops.len() == 1 ==> run_all(env, memory, rewrite) == first
            &&& ops.len() == 2 ==> run_all(env, memory, rewrite) == second
            &&& ops.len() == 3 ==> run_all(env, memory, rewrite) == third
            &&& ops.len() == 5 ==> run_all(env, memory, rewrite) == fifth
        }),
{
    reveal_with_fuel(run, 6);
}

/// The operations of a rewrite and those of its view are the same, one by one.
pub(crate) proof fn lemma_ops_of_view(rewrite: Rewrite)
    ensures
        rewrite@.ops.len() == rewrite.ops@.len(),
        forall|i: int|
            0 <= i < rewrite.ops@.len() ==> #[trigger] rewrite@.ops[i] == rewrite.ops@[i]@,
{
}

/// A full-width constant added to an address counts up by its number.
pub(crate) proof fn lemma_wrap_signed(address: int, n: u64)
    ensures
        n < pow2(64),
        wrap(wrap(address + signed(64, n))) == wrap(address + n),
{
    lemma2_to64();
    let span = 0x1_0000_0000_0000_0000int;
    assert(n as int % span == n as int);
    let s = signed(64, n);
    assert(s == n || s == n - span);
    assert((address + n - span) % span == (address + n) % span);
    assert(wrap(address + s) == wrap(address + n));
    assert(0 <= wrap(address + n) < span);
}

/// Counting elements of eight bits is counting bytes.
pub(crate) proof fn lemma_bytes(env: Surroundings, count: int)
    ensures
        count * size_of(env, LlvmType::Integer(8)) == count,
{
    let size = size_of(env, LlvmType::Integer(8));
    assert(size == 1);
    assert(count * size == count) by (nonlinear_arith)
        requires
            size == 1,
    ;
}

} // verus!
