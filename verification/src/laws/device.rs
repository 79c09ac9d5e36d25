//! Device globals: which allocations share one, and where it lives.

use crate::address_space;
use crate::error::LowerCause;
use crate::globals::{
    device_symbol, global_address_space, global_alloc_shape, lower_global_alloc, DeviceState,
};
use crate::ir::{Inst, MirGlobalAllocOp, RewriteView};
use crate::laws::symbols::{address_symbol, device_symbols_distinct};
use crate::types::TypeTable;
use vstd::prelude::*;

verus! {

/// A device global lives in constant memory exactly if its pointer says so, else in global
/// memory. A new global is the one whose address is taken, in its own address space.
pub proof fn device_globals_are_placed(ctx: TypeTable, op: MirGlobalAllocOp, state: DeviceState)
    ensures
        lower_global_alloc(ctx, op, state).0 matches Ok(r) ==> {
            let pointer = ctx.mir_ptr(op.result_type->Some_0)->Some_0;
            let place = global_address_space(pointer.address_space);
            &&& place == address_space::GLOBAL || place == address_space::CONSTANT
            &&& r.ops[0] == (Inst::AddressOf { symbol: address_symbol(r), address_space: place })
            &&& r.global matches Some(g) ==> g.address_space == place && g.symbol
                == address_symbol(r)
        },
{
}

/// A new global in constant memory has its key as its symbol, so that the host can find it
/// by name.
pub proof fn constants_keep_their_names(ctx: TypeTable, op: MirGlobalAllocOp, state: DeviceState)
    ensures
        lower_global_alloc(ctx, op, state).0 matches Ok(r) ==> (r.global matches Some(g) ==> (
        g.address_space == address_space::CONSTANT ==> g.symbol == global_alloc_shape(
            ctx,
            op,
        )->Ok_0.0)),
{
}

/// A global allocation that fails leaves the keys as they were.
pub proof fn failed_global_alloc_enters_nothing(
    ctx: TypeTable,
    op: MirGlobalAllocOp,
    state: DeviceState,
)
    requires
        lower_global_alloc(ctx, op, state).0 is Err,
    ensures
        lower_global_alloc(ctx, op, state).1.table == state.table,
{
}

/// A global allocation in a run, with the types that are known when it is lowered.
pub struct DeviceStep {
    pub ctx: TypeTable,
    pub op: MirGlobalAllocOp,
}

/// The key of a global allocation whose attributes are in order.
pub open spec fn device_key(step: DeviceStep) -> Seq<char> {
    global_alloc_shape(step.ctx, step.op)->Ok_0.0
}

/// Whether an allocation is for a constant under `key`.
pub open spec fn is_constant(step: DeviceStep, key: Seq<char>) -> bool {
    global_alloc_shape(step.ctx, step.op) matches Ok(shape) && shape.0 == key && shape.2
        == address_space::CONSTANT
}

/// Whether `symbol` is one of those numbered from `from` on, up to `to`.
pub open spec fn is_numbered(symbol: Seq<char>, from: int, to: int) -> bool {
    exists|n: usize| from <= n < to && symbol == #[trigger] device_symbol(n)
}

/// No symbol stands for two keys, and none of those numbered up to `end` that are still to
/// be handed out stands for any.
pub open spec fn device_inv(state: DeviceState, end: int) -> bool {
    &&& forall|a: Seq<char>, b: Seq<char>|
        #![trigger state.table[a], state.table[b]]
        state.table.contains_key(a) && state.table.contains_key(b) && state.table[a]
            == state.table[b] ==> a == b
    &&& forall|a: Seq<char>| #[trigger]
        state.table.contains_key(a) ==> !is_numbered(state.table[a], state.next as int, end)
}

/// The invariant holds when nothing has been lowered.
pub proof fn device_inv_initial(next: usize, end: int)
    ensures
        device_inv(DeviceState { table: Map::empty(), next }, end),
{
}

/// The invariant of one map is not touched when numbers are handed out for another.
pub proof fn device_inv_later(state: DeviceState, next: usize, end: int)
    requires
        device_inv(state, end),
        state.next <= next,
    ensures
        device_inv(DeviceState { next, ..state }, end),
{
    assert forall|a: Seq<char>| #[trigger] state.table.contains_key(a) implies !is_numbered(
        state.table[a],
        next as int,
        end,
    ) by {
        if is_numbered(state.table[a], next as int, end) {
            let n = choose|n: usize|
                next <= n < end && state.table[a] == #[trigger] device_symbol(n);
            assert(state.next <= n < end);
        }
    }
}

/// Lowering a global allocation keeps the invariant, as long as numbers are left, unless it
/// is for a new constant whose key is a symbol already or one of those still to be handed
/// out.
pub proof fn device_inv_kept(step: DeviceStep, state: DeviceState, end: int)
    requires
        device_inv(state, end),
        state.next < usize::MAX,
        state.next < end,
        forall|key: Seq<char>| #[trigger]
            is_constant(step, key) && !state.table.contains_key(key) ==> {
                &&& !is_numbered(key, state.next as int, end)
                &&& forall|a: Seq<char>| #[trigger]
                    state.table.contains_key(a) ==> state.table[a] != key
            },
    ensures
        device_inv(lower_global_alloc(step.ctx, step.op, state).1, end),
{
    let after = lower_global_alloc(step.ctx, step.op, state).1;
    let key = device_key(step);
    assert(is_constant(step, key) && !state.table.contains_key(key) ==> !is_numbered(
        key,
        state.next as int,
        end,
    ));
    assert(is_numbered(device_symbol(state.next), state.next as int, end));
    let new_symbol = if is_constant(step, key) {
        key
    } else {
        device_symbol(state.next)
    };
    assert forall|a: Seq<char>, b: Seq<char>|
        #![trigger after.table[a], after.table[b]]
        after.table.contains_key(a) && after.table.contains_key(b) && after.table[a]
            == after.table[b] implies a == b by {
        if state.table.contains_key(a) && state.table.contains_key(b) {
            assert(state.table[a] == state.table[b]);
        } else if state.table.contains_key(a) {
            assert(b == key && after.table[a] == state.table[a]);
            assert(!is_numbered(state.table[a], state.next as int, end));
            assert(after.table[b] == new_symbol && state.table[a] != new_symbol);
        } else if state.table.contains_key(b) {
            assert(a == key && after.table[b] == state.table[b]);
            assert(!is_numbered(state.table[b], state.next as int, end));
            assert(after.table[a] == new_symbol && state.table[b] != new_symbol);
        }
    }
    assert forall|a: Seq<char>| #[trigger] after.table.contains_key(a) implies !is_numbered(
        after.table[a],
        after.next as int,
        end,
    ) by {
        if is_numbered(after.table[a], after.next as int, end) {
            let n = choose|n: usize|
                after.next <= n < end && after.table[a] == #[trigger] device_symbol(n);
            if state.table.contains_key(a) {
                assert(is_numbered(state.table[a], state.next as int, end));
            } else if is_constant(step, key) {
                assert(is_numbered(key, state.next as int, end));
            } else {
                device_symbols_distinct(state.next, n);
            }
        }
    }
}

/// The state after a run of global allocations.
pub open spec fn device_after(steps: Seq<DeviceStep>, state: DeviceState) -> DeviceState
    decreases steps.len(),
{
    if steps.len() == 0 {
        state
    } else {
        lower_global_alloc(
            steps.last().ctx,
            steps.last().op,
            device_after(steps.drop_last(), state),
        ).1
    }
}

/// How the allocation at position `i` of a run is lowered.
pub open spec fn device_outcome(steps: Seq<DeviceStep>, state: DeviceState, i: int) -> Result<
    RewriteView,
    LowerCause,
> {
    lower_global_alloc(steps[i].ctx, steps[i].op, device_after(steps.take(i), state)).0
}

/// Whether a run has a constant under `key`.
pub open spec fn has_constant(steps: Seq<DeviceStep>, key: Seq<char>) -> bool {
    exists|i: int| 0 <= i < steps.len() && is_constant(#[trigger] steps[i], key)
}

/// Whether the symbol of `key` in a run that hands out numbers up to `end` cannot be that of
/// `other`. If `key` has a symbol before the run, it is none of the numbers handed out, nor
/// that of `other` before the run. If `key` is new and a constant of the run, the same holds
/// of `key` itself.
pub open spec fn key_apart(
    steps: Seq<DeviceStep>,
    state: DeviceState,
    end: int,
    key: Seq<char>,
    other: Seq<char>,
) -> bool {
    &&& state.table.contains_key(key) ==> {
        &&& !is_numbered(state.table[key], state.next as int, end)
        &&& state.table.contains_key(other) ==> state.table[key] != state.table[other]
    }
    &&& !state.table.contains_key(key) && has_constant(steps, key) ==> {
        &&& !is_numbered(key, state.next as int, end)
        &&& state.table.contains_key(other) ==> state.table[other] != key
    }
}

/// Where the symbol of a key in a run comes from: from before the run, from the numbers
/// handed out up to `next`, or from the key itself, if it is a constant.
spec fn has_origin(
    steps: Seq<DeviceStep>,
    state: DeviceState,
    next: int,
    key: Seq<char>,
    symbol: Seq<char>,
) -> bool {
    if state.table.contains_key(key) {
        symbol == state.table[key]
    } else {
        is_numbered(symbol, state.next as int, next) || (symbol == key && has_constant(steps, key))
    }
}

proof fn lemma_numbered_grows(symbol: Seq<char>, from: int, to: int, further: int)
    requires
        is_numbered(symbol, from, to),
        to <= further,
    ensures
        is_numbered(symbol, from, further),
{
    let n = choose|n: usize| from <= n < to && symbol == #[trigger] device_symbol(n);
    assert(from <= n < further && symbol == device_symbol(n));
}

/// Two keys of a run never get the same symbol, nor either of them a number that is still to
/// be handed out.
proof fn lemma_keys_keep_apart(
    all: Seq<DeviceStep>,
    n: int,
    state: DeviceState,
    end: int,
    a: Seq<char>,
    b: Seq<char>,
)
    requires
        0 <= n <= all.len(),
        a != b,
        state.next + all.len() <= usize::MAX,
        device_after(all.take(n), state).next <= end,
        key_apart(all, state, end, a, b),
        key_apart(all, state, end, b, a),
    ensures
        ({
            let after = device_after(all.take(n), state);
            &&& state.next <= after.next <= state.next + n
            &&& after.table.contains_key(a) ==> has_origin(
                all,
                state,
                after.next as int,
                a,
                after.table[a],
            ) && !is_numbered(after.table[a], after.next as int, end)
            &&& after.table.contains_key(b) ==> has_origin(
                all,
                state,
                after.next as int,
                b,
                after.table[b],
            ) && !is_numbered(after.table[b], after.next as int, end)
            &&& after.table.contains_key(a) && after.table.contains_key(b) ==> after.table[a]
                != after.table[b]
            &&& forall|k: Seq<char>| #[trigger]
                state.table.contains_key(k) ==> after.table.contains_key(k) && after.table[k]
                    == state.table[k]
        }),
    decreases n,
{
    if n > 0 {
        let step = all[n - 1];
        let before = device_after(all.take(n - 1), state);
        let after = device_after(all.take(n), state);
        assert(all.take(n).drop_last() =~= all.take(n - 1));
        assert(all.take(n).last() == step);
        lemma_device_next(all.take(n - 1), state);
        assert(before.next <= after.next <= before.next + 1);
        lemma_keys_keep_apart(all, n - 1, state, end, a, b);
        lemma_key_step(all, n, state, end, a, b);
        lemma_key_step(all, n, state, end, b, a);
        if after.table.contains_key(a) && after.table.contains_key(b) {
            if before.table.contains_key(a) && !before.table.contains_key(b) {
                lemma_new_symbol_differs(all, n, state, end, b, a);
            } else if before.table.contains_key(b) && !before.table.contains_key(a) {
                lemma_new_symbol_differs(all, n, state, end, a, b);
            }
        }
    } else {
        assert(all.take(0).len() == 0);
    }
}

proof fn lemma_device_next(steps: Seq<DeviceStep>, state: DeviceState)
    requires
        state.next + steps.len() <= usize::MAX,
    ensures
        state.next <= device_after(steps, state).next <= state.next + steps.len(),
    decreases steps.len(),
{
    if steps.len() > 0 {
        lemma_device_next(steps.drop_last(), state);
    }
}

/// One step keeps the origin of a key's symbol, and keeps it from being one that is still to
/// be handed out.
proof fn lemma_key_step(
    all: Seq<DeviceStep>,
    n: int,
    state: DeviceState,
    end: int,
    a: Seq<char>,
    b: Seq<char>,
)
    requires
        0 < n <= all.len(),
        state.next + all.len() <= usize::MAX,
        device_after(all.take(n), state).next <= end,
        key_apart(all, state, end, a, b),
        ({
            let before = device_after(all.take(n - 1), state);
            &&& before.table.contains_key(a) ==> has_origin(
                all,
                state,
                before.next as int,
                a,
                before.table[a],
            ) && !is_numbered(before.table[a], before.next as int, end)
            &&& state.table.contains_key(a) ==> before.table.contains_key(a)
        }),
    ensures
        ({
            let after = device_after(all.take(n), state);
            after.table.contains_key(a) ==> has_origin(
                all,
                state,
                after.next as int,
                a,
                after.table[a],
            ) && !is_numbered(after.table[a], after.next as int, end)
        }),
{
    let step = all[n - 1];
    let before = device_after(all.take(n - 1), state);
    let after = device_after(all.take(n), state);
    assert(all.take(n).drop_last() =~= all.take(n - 1));
    assert(all.take(n).last() == step);
    lemma_device_next(all.take(n - 1), state);
    assert(before.next <= after.next);
    if after.table.contains_key(a) {
        if before.table.contains_key(a) {
            assert(after.table[a] == before.table[a]);
            if !state.table.contains_key(a) && is_numbered(
                before.table[a],
                state.next as int,
                before.next as int,
            ) {
                lemma_numbered_grows(
                    before.table[a],
                    state.next as int,
                    before.next as int,
                    after.next as int,
                );
            }
            if is_numbered(after.table[a], after.next as int, end) {
                let m = choose|m: usize|
                    after.next <= m < end && after.table[a] == #[trigger] device_symbol(m);
                assert(before.next <= m < end);
            }
        } else if is_constant(step, a) {
            assert(after.table[a] == a);
            assert(has_constant(all, a));
            if is_numbered(a, after.next as int, end) {
                let m = choose|m: usize| after.next <= m < end && a == #[trigger] device_symbol(m);
                assert(state.next <= m < end);
            }
        } else {
            assert(after.table[a] == device_symbol(before.next));
            assert(state.next <= before.next < after.next);
            if is_numbered(after.table[a], after.next as int, end) {
                let m = choose|m: usize|
                    after.next <= m < end && after.table[a] == #[trigger] device_symbol(m);
                device_symbols_distinct(before.next, m);
            }
        }
    }
}

/// The symbol that a step gives to the new key `a` is not that of `b`.
proof fn lemma_new_symbol_differs(
    all: Seq<DeviceStep>,
    n: int,
    state: DeviceState,
    end: int,
    a: Seq<char>,
    b: Seq<char>,
)
    requires
        0 < n <= all.len(),
        a != b,
        state.next + all.len() <= usize::MAX,
        device_after(all.take(n), state).next <= end,
        key_apart(all, state, end, a, b),
        ({
            let before = device_after(all.take(n - 1), state);
            let after = device_after(all.take(n), state);
            &&& before.next <= end
            &&& !before.table.contains_key(a)
            &&& !state.table.contains_key(a)
            &&& after.table.contains_key(a)
            &&& before.table.contains_key(b)
            &&& has_origin(all, state, before.next as int, b, before.table[b])
            &&& !is_numbered(before.table[b], before.next as int, end)
        }),
    ensures
        ({
            let after = device_after(all.take(n), state);
            after.table[a] != after.table[b]
        }),
{
    let step = all[n - 1];
    let before = device_after(all.take(n - 1), state);
    let after = device_after(all.take(n), state);
    assert(all.take(n).drop_last() =~= all.take(n - 1));
    assert(all.take(n).last() == step);
    assert(after.table[b] == before.table[b]);
    if is_constant(step, a) {
        assert(after.table[a] == a);
        assert(has_constant(all, a));
        if is_numbered(before.table[b], state.next as int, before.next as int) {
            lemma_numbered_grows(before.table[b], state.next as int, before.next as int, end);
        }
    } else {
        lemma_device_next(all.take(n - 1), state);
        assert(after.table[a] == device_symbol(before.next));
        assert(before.next < after.next <= end);
        if before.table[b] == device_symbol(before.next) {
            assert(is_numbered(before.table[b], before.next as int, end));
        }
    }
}

proof fn lemma_device_after_keeps(steps: Seq<DeviceStep>, state: DeviceState, i: int, k: Seq<char>)
    requires
        0 <= i <= steps.len(),
        device_after(steps.take(i), state).table.contains_key(k),
    ensures
        device_after(steps, state).table.contains_key(k),
        device_after(steps, state).table[k] == device_after(steps.take(i), state).table[k],
    decreases steps.len(),
{
    if i == steps.len() {
        assert(steps.take(i) =~= steps);
    } else {
        assert(steps.drop_last().take(i) =~= steps.take(i));
        lemma_device_after_keeps(steps.drop_last(), state, i, k);
    }
}

/// In a run of global allocations, two get the address of the same global exactly if they
/// have the same key. The later one of them declares no global.
pub proof fn device_allocations_share_by_key(
    steps: Seq<DeviceStep>,
    state: DeviceState,
    i: int,
    j: int,
)
    requires
        state.next + steps.len() <= usize::MAX,
        0 <= i < j < steps.len(),
        device_outcome(steps, state, i) is Ok,
        device_outcome(steps, state, j) is Ok,
        device_key(steps[i]) != device_key(steps[j]) ==> {
            let end = device_after(steps, state).next as int;
            &&& key_apart(steps, state, end, device_key(steps[i]), device_key(steps[j]))
            &&& key_apart(steps, state, end, device_key(steps[j]), device_key(steps[i]))
        },
    ensures
        address_symbol(device_outcome(steps, state, i)->Ok_0) == address_symbol(
            device_outcome(steps, state, j)->Ok_0,
        ) <==> device_key(steps[i]) == device_key(steps[j]),
        device_key(steps[i]) == device_key(steps[j]) ==> device_outcome(
            steps,
            state,
            j,
        )->Ok_0.global is None,
{
    let a = device_key(steps[i]);
    let b = device_key(steps[j]);
    let s = address_symbol(device_outcome(steps, state, i)->Ok_0);
    let t = address_symbol(device_outcome(steps, state, j)->Ok_0);
    assert(steps.take(i + 1).drop_last() =~= steps.take(i));
    assert(steps.take(j + 1).drop_last() =~= steps.take(j));
    assert(device_after(steps.take(i + 1), state).table[a] == s);
    assert(device_after(steps.take(j + 1), state).table[b] == t);
    assert(steps.take(j).take(i + 1) =~= steps.take(i + 1));
    lemma_device_after_keeps(steps.take(j), state, i + 1, a);
    lemma_device_after_keeps(steps, state, i + 1, a);
    lemma_device_after_keeps(steps, state, j + 1, b);
    if a != b {
        assert(steps.take(steps.len() as int) =~= steps);
        lemma_keys_keep_apart(
            steps,
            steps.len() as int,
            state,
            device_after(steps, state).next as int,
            a,
            b,
        );
    }
}

/// Whether one of the first `n` allocations of a run succeeded under `key`.
pub open spec fn allocated_before(
    steps: Seq<DeviceStep>,
    state: DeviceState,
    key: Seq<char>,
    n: int,
) -> bool {
    exists|i: int|
        0 <= i < n && #[trigger] device_outcome(steps, state, i) is Ok && device_key(steps[i])
            == key
}

proof fn lemma_keys_of_run(
    steps: Seq<DeviceStep>,
    state: DeviceState,
    key: Seq<char>,
    n: int,
)
    requires
        0 <= n <= steps.len(),
    ensures
        device_after(steps.take(n), state).table.contains_key(key) <==> (state.table.contains_key(
            key,
        ) || allocated_before(steps, state, key, n)),
    decreases n,
{
    if n > 0 {
        lemma_keys_of_run(steps, state, key, n - 1);
        assert(steps.take(n).drop_last() =~= steps.take(n - 1));
        assert(steps.take(n).last() == steps[n - 1]);
        let last = device_outcome(steps, state, n - 1);
        if allocated_before(steps, state, key, n - 1) {
            let i = choose|i: int|
                0 <= i < n - 1 && #[trigger] device_outcome(steps, state, i) is Ok && device_key(
                    steps[i],
                ) == key;
            assert(0 <= i < n && device_outcome(steps, state, i) is Ok);
        }
        if last is Ok && device_key(steps[n - 1]) == key {
            assert(allocated_before(steps, state, key, n));
        }
        if allocated_before(steps, state, key, n) && !allocated_before(steps, state, key, n - 1) {
            let i = choose|i: int|
                0 <= i < n && #[trigger] device_outcome(steps, state, i) is Ok && device_key(
                    steps[i],
                ) == key;
            assert(i == n - 1);
        }
    }
}

/// In a run of global allocations, one comes with a new global exactly if its key had none
/// before the run and no earlier one that succeeded had the same key. So a global is
/// declared once, however often it is used.
pub proof fn device_globals_declared_once(steps: Seq<DeviceStep>, state: DeviceState, j: int)
    requires
        0 <= j < steps.len(),
        device_outcome(steps, state, j) is Ok,
    ensures
        device_outcome(steps, state, j)->Ok_0.global is Some <==> {
            &&& !state.table.contains_key(device_key(steps[j]))
            &&& forall|i: int|
                0 <= i < j && #[trigger] device_outcome(steps, state, i) is Ok ==> device_key(
                    steps[i],
                ) != device_key(steps[j])
        },
{
    lemma_keys_of_run(steps, state, device_key(steps[j]), j);
}

} // verus!
