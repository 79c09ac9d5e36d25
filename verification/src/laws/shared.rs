//! Shared memory: which uses share a global, and when it is declared.

use crate::address_space;
use crate::error::LowerCause;
use crate::globals::{
    device_symbol, dynamic_smem, enclosing_function, lower_extern_shared, lower_shared_alloc,
    shared_alloc_key, shared_symbol, SharedState,
};
use crate::ir::{
    Inst, LlvmType, MirExternSharedOp, MirSharedAllocOp, OpSite, Replacement, RewriteView, Value,
};
use crate::laws::symbols::{address_symbol, shared_symbols_distinct};
use crate::symbols::SharedTable;
use crate::types::TypeTable;
use vstd::prelude::*;

verus! {

/// A use of shared memory: a static allocation, or a pointer into the dynamic pool of a
/// kernel.
pub enum SharedUse {
    Static(MirSharedAllocOp),
    Dynamic(MirExternSharedOp),
}

/// A use of shared memory in a run, with the types that are known when it is lowered.
pub struct SharedStep {
    pub ctx: TypeTable,
    pub op: SharedUse,
}

/// The symbol and alignment of each kernel's pool.
pub type Pools = Map<Seq<char>, (Seq<char>, u64)>;

/// How a use of shared memory is lowered, and the state that it leaves behind.
pub open spec fn lower_shared_use(step: SharedStep, pools: Pools, state: SharedState) -> (
    Result<RewriteView, LowerCause>,
    SharedState,
) {
    match step.op {
        SharedUse::Static(op) => lower_shared_alloc(step.ctx, op, state),
        SharedUse::Dynamic(op) => {
            let (result, declared) = lower_extern_shared(op, pools, state.table.pools);
            (result, SharedState { table: SharedTable { pools: declared, ..state.table }, ..state })
        },
    }
}

/// What a use is known by: the key of an allocation, or the kernel whose pool it is.
pub enum UseKey {
    Allocation(Seq<char>),
    Pool(Seq<char>),
}

/// What a use is known by, if it has a key or stands in a kernel.
pub open spec fn use_key(u: SharedUse) -> Option<UseKey> {
    match u {
        SharedUse::Static(op) => match shared_alloc_key(op) {
            Some(key) => Some(UseKey::Allocation(key)),
            None => None,
        },
        SharedUse::Dynamic(op) => match enclosing_function(op.site) {
            Ok(kernel) => Some(UseKey::Pool(kernel)),
            Err(_) => None,
        },
    }
}

/// Both uses are known by something, and it is the same: the same static allocation, or
/// pointers into the pool of the same kernel.
pub open spec fn same_use(a: SharedUse, b: SharedUse) -> bool {
    use_key(a) is Some && use_key(a) == use_key(b)
}

/// Whether a global has been handed out for `key`.
pub open spec fn is_known(table: SharedTable, key: UseKey) -> bool {
    match key {
        UseKey::Allocation(k) => table.keys.contains_key(k),
        UseKey::Pool(kernel) => table.pools.contains_key(kernel),
    }
}

/// The symbol of the pool of a kernel, as the scan for alignments names it.
pub open spec fn pool_symbol(kernel: Seq<char>) -> Seq<char> {
    "__dynamic_smem_"@ + kernel
}

/// A pool has a symbol that is neither that of another pool nor numbered.
pub proof fn pool_symbols_distinct(a: Seq<char>, b: Seq<char>, n: usize)
    ensures
        a != b ==> pool_symbol(a) != pool_symbol(b),
        pool_symbol(a) != shared_symbol(n),
        pool_symbol(a) != device_symbol(n),
{
    let p = "__dynamic_smem_"@;
    assert((p + a).skip(p.len() as int) =~= a);
    assert((p + b).skip(p.len() as int) =~= b);
    reveal_strlit("__dynamic_smem_");
    reveal_strlit("__shared_mem_");
    reveal_strlit("__device_global_");
    assert(pool_symbol(a)[3] == 'y');
    assert(shared_symbol(n)[3] == 'h');
    assert(device_symbol(n)[3] == 'e');
}

/// No symbol that is still to be handed out stands for a key.
pub open spec fn shared_spent(state: SharedState) -> bool {
    forall|a: Seq<char>, n: usize|
        #![trigger state.table.keys[a], shared_symbol(n)]
        state.table.keys.contains_key(a) && state.next <= n ==> state.table.keys[a]
            != shared_symbol(n)
}

/// No symbol stands for two keys, and none that is still to be handed out stands for any.
pub open spec fn shared_inv(state: SharedState) -> bool {
    &&& forall|a: Seq<char>, b: Seq<char>|
        #![trigger state.table.keys[a], state.table.keys[b]]
        state.table.keys.contains_key(a) && state.table.keys.contains_key(b)
            && state.table.keys[a] == state.table.keys[b] ==> a == b
    &&& shared_spent(state)
}

/// The invariant holds when nothing has been lowered.
pub proof fn shared_inv_initial(next: usize)
    ensures
        shared_inv(SharedState { table: SharedTable::empty(), next }),
{
}

/// The invariant of one map is not touched when numbers are handed out for another.
pub proof fn shared_inv_later(state: SharedState, next: usize)
    requires
        shared_inv(state),
        state.next <= next,
    ensures
        shared_inv(SharedState { next, ..state }),
{
}

/// Lowering a use of shared memory keeps the invariant, as long as numbers are left. The
/// numbers grow by one at most, and what was handed out stays so.
pub proof fn shared_inv_kept(step: SharedStep, pools: Pools, state: SharedState)
    requires
        state.next < usize::MAX,
    ensures
        ({
            let after = lower_shared_use(step, pools, state).1;
            &&& shared_inv(state) ==> shared_inv(after)
            &&& shared_spent(state) ==> shared_spent(after)
            &&& state.next <= after.next <= state.next + 1
            &&& forall|a: Seq<char>| #[trigger]
                state.table.keys.contains_key(a) ==> after.table.keys.contains_key(a)
                    && after.table.keys[a] == state.table.keys[a]
            &&& forall|kernel: Seq<char>| #[trigger]
                state.table.pools.contains_key(kernel) ==> after.table.pools.contains_key(kernel)
                    && after.table.pools[kernel] == state.table.pools[kernel]
        }),
{
    let after = lower_shared_use(step, pools, state).1;
    if shared_spent(state) {
        assert forall|a: Seq<char>, n: usize|
            #![trigger after.table.keys[a], shared_symbol(n)]
            after.table.keys.contains_key(a) && after.next <= n implies after.table.keys[a]
            != shared_symbol(n) by {
            if state.table.keys.contains_key(a) {
                assert(state.table.keys[a] != shared_symbol(n));
            } else {
                shared_symbols_distinct(state.next, n);
            }
        }
    }
    if shared_inv(state) {
        assert forall|a: Seq<char>, b: Seq<char>|
            #![trigger after.table.keys[a], after.table.keys[b]]
            after.table.keys.contains_key(a) && after.table.keys.contains_key(b)
                && after.table.keys[a] == after.table.keys[b] implies a == b by {
            if state.table.keys.contains_key(a) && state.table.keys.contains_key(b) {
                assert(state.table.keys[a] == state.table.keys[b]);
            } else if state.table.keys.contains_key(a) {
                assert(state.table.keys[a] != shared_symbol(state.next));
            } else if state.table.keys.contains_key(b) {
                assert(state.table.keys[b] != shared_symbol(state.next));
            }
        }
    }
}

/// The state after a run of uses of shared memory.
pub open spec fn shared_after(
    steps: Seq<SharedStep>,
    pools: Pools,
    state: SharedState,
) -> SharedState
    decreases steps.len(),
{
    if steps.len() == 0 {
        state
    } else {
        lower_shared_use(steps.last(), pools, shared_after(steps.drop_last(), pools, state)).1
    }
}

/// How the use at position `i` of a run is lowered.
pub open spec fn shared_outcome(
    steps: Seq<SharedStep>,
    pools: Pools,
    state: SharedState,
    i: int,
) -> Result<RewriteView, LowerCause> {
    lower_shared_use(steps[i], pools, shared_after(steps.take(i), pools, state)).0
}

/// Whether `symbol` is one of those numbered from `from` on, up to `to`.
pub open spec fn is_numbered(symbol: Seq<char>, from: int, to: int) -> bool {
    exists|n: usize| from <= n < to && symbol == #[trigger] shared_symbol(n)
}

proof fn lemma_shared_after(steps: Seq<SharedStep>, pools: Pools, state: SharedState)
    requires
        state.next + steps.len() <= usize::MAX,
    ensures
        ({
            let after = shared_after(steps, pools, state);
            &&& shared_inv(state) ==> shared_inv(after)
            &&& state.next <= after.next <= state.next + steps.len()
            &&& forall|a: Seq<char>| #[trigger]
                state.table.keys.contains_key(a) ==> after.table.keys.contains_key(a)
                    && after.table.keys[a] == state.table.keys[a]
            &&& forall|a: Seq<char>| #[trigger]
                after.table.keys.contains_key(a) ==> state.table.keys.contains_key(a)
                    || is_numbered(after.table.keys[a], state.next as int, after.next as int)
        }),
    decreases steps.len(),
{
    if steps.len() > 0 {
        let before = shared_after(steps.drop_last(), pools, state);
        lemma_shared_after(steps.drop_last(), pools, state);
        shared_inv_kept(steps.last(), pools, before);
        let after = shared_after(steps, pools, state);
        assert forall|a: Seq<char>| #[trigger] after.table.keys.contains_key(a) implies
            state.table.keys.contains_key(a) || is_numbered(
            after.table.keys[a],
            state.next as int,
            after.next as int,
        ) by {
            if before.table.keys.contains_key(a) {
                if !state.table.keys.contains_key(a) {
                    let n = choose|n: usize|
                        state.next <= n < before.next && before.table.keys[a]
                            == #[trigger] shared_symbol(n);
                    assert(after.table.keys[a] == shared_symbol(n));
                }
            } else {
                assert(after.table.keys[a] == shared_symbol(before.next));
            }
        }
    }
}

proof fn lemma_shared_after_split(
    steps: Seq<SharedStep>,
    pools: Pools,
    state: SharedState,
    i: int,
)
    requires
        0 <= i <= steps.len(),
    ensures
        shared_after(steps, pools, state) == shared_after(
            steps.skip(i),
            pools,
            shared_after(steps.take(i), pools, state),
        ),
    decreases steps.len(),
{
    if i == steps.len() {
        assert(steps.take(i) =~= steps);
        assert(steps.skip(i).len() == 0);
    } else {
        lemma_shared_after_split(steps.drop_last(), pools, state, i);
        assert(steps.drop_last().take(i) =~= steps.take(i));
        assert(steps.drop_last().skip(i) =~= steps.skip(i).drop_last());
    }
}

/// A successful static allocation in a run has the symbol of its key from before the run, or
/// one numbered in the run.
proof fn lemma_static_symbol(
    steps: Seq<SharedStep>,
    pools: Pools,
    state: SharedState,
    i: int,
)
    requires
        state.next + steps.len() <= usize::MAX,
        0 <= i < steps.len(),
        steps[i].op is Static,
        shared_outcome(steps, pools, state, i) is Ok,
    ensures
        ({
            let s = address_symbol(shared_outcome(steps, pools, state, i)->Ok_0);
            ||| is_numbered(s, state.next as int, shared_after(steps, pools, state).next as int)
            ||| {
                &&& shared_alloc_key(steps[i].op->Static_0) is Some
                &&& state.table.keys.contains_key(shared_alloc_key(steps[i].op->Static_0)->Some_0)
                &&& s == state.table.keys[shared_alloc_key(steps[i].op->Static_0)->Some_0]
            }
        }),
{
    let before = shared_after(steps.take(i), pools, state);
    let after = shared_after(steps.take(i + 1), pools, state);
    assert(steps.take(i + 1).drop_last() =~= steps.take(i));
    lemma_shared_after(steps.take(i), pools, state);
    lemma_shared_after(steps.take(i + 1), pools, state);
    lemma_shared_after_split(steps, pools, state, i + 1);
    lemma_shared_after(steps.skip(i + 1), pools, after);
    let s = address_symbol(shared_outcome(steps, pools, state, i)->Ok_0);
    match shared_alloc_key(steps[i].op->Static_0) {
        Some(key) => {
            assert(after.table.keys.contains_key(key) && after.table.keys[key] == s);
            if !state.table.keys.contains_key(key) {
                let n = choose|n: usize|
                    state.next <= n < after.next && after.table.keys[key]
                        == #[trigger] shared_symbol(n);
                assert(s == shared_symbol(n));
            }
        },
        None => {
            assert(s == shared_symbol(before.next));
            assert(before.next < after.next);
        },
    }
}

/// A numbered symbol that stands for no key and will not be handed out again stays so.
proof fn lemma_spent_symbol(steps: Seq<SharedStep>, pools: Pools, state: SharedState, m: usize)
    requires
        state.next + steps.len() <= usize::MAX,
        m < state.next,
        forall|a: Seq<char>| #[trigger]
            state.table.keys.contains_key(a) ==> state.table.keys[a] != shared_symbol(m),
    ensures
        forall|a: Seq<char>| #[trigger]
            shared_after(steps, pools, state).table.keys.contains_key(a) ==> shared_after(
                steps,
                pools,
                state,
            ).table.keys[a] != shared_symbol(m),
    decreases steps.len(),
{
    if steps.len() > 0 {
        let then = shared_after(steps.drop_last(), pools, state);
        lemma_spent_symbol(steps.drop_last(), pools, state, m);
        lemma_shared_after(steps.drop_last(), pools, state);
        shared_symbols_distinct(m, then.next);
    }
}

/// Of two static allocations in a run, the symbols are the same exactly if the keys are.
proof fn lemma_static_uses(
    steps: Seq<SharedStep>,
    pools: Pools,
    state: SharedState,
    i: int,
    j: int,
)
    requires
        shared_inv(state),
        state.next + steps.len() <= usize::MAX,
        0 <= i < j < steps.len(),
        steps[i].op is Static,
        steps[j].op is Static,
        shared_outcome(steps, pools, state, i) is Ok,
        shared_outcome(steps, pools, state, j) is Ok,
    ensures
        address_symbol(shared_outcome(steps, pools, state, i)->Ok_0) == address_symbol(
            shared_outcome(steps, pools, state, j)->Ok_0,
        ) <==> same_use(steps[i].op, steps[j].op),
{
    let before = shared_after(steps.take(i), pools, state);
    let after = shared_after(steps.take(i + 1), pools, state);
    let then = shared_after(steps.take(j), pools, state);
    let last = lower_shared_use(steps[j], pools, then).1;
    let between = steps.take(j).skip(i + 1);
    lemma_shared_after(steps.take(i), pools, state);
    lemma_shared_after(steps.take(i + 1), pools, state);
    lemma_shared_after(steps.take(j), pools, state);
    assert(steps.take(i + 1).drop_last() =~= steps.take(i));
    lemma_shared_after_split(steps.take(j), pools, state, i + 1);
    assert(steps.take(j).take(i + 1) =~= steps.take(i + 1));
    lemma_shared_after(between, pools, after);
    shared_inv_kept(steps[j], pools, then);
    let s = address_symbol(shared_outcome(steps, pools, state, i)->Ok_0);
    let t = address_symbol(shared_outcome(steps, pools, state, j)->Ok_0);
    let key_i = shared_alloc_key(steps[i].op->Static_0);
    let key_j = shared_alloc_key(steps[j].op->Static_0);
    match key_i {
        Some(key) => {
            assert(after.table.keys.contains_key(key) && after.table.keys[key] == s);
            assert(then.table.keys.contains_key(key) && then.table.keys[key] == s);
            assert(last.table.keys.contains_key(key) && last.table.keys[key] == s);
            match key_j {
                Some(other) => {
                    assert(last.table.keys.contains_key(other) && last.table.keys[other] == t);
                },
                None => {
                    assert(t == shared_symbol(then.next));
                },
            }
        },
        None => {
            let m = before.next;
            assert(s == shared_symbol(m));
            assert forall|a: Seq<char>| #[trigger] after.table.keys.contains_key(a) implies
                after.table.keys[a] != shared_symbol(m) by {
                assert(before.table.keys[a] != shared_symbol(m));
            }
            lemma_spent_symbol(between, pools, after, m);
            shared_symbols_distinct(m, then.next);
        },
    }
}

/// Whether the pool of `kernel` has another symbol than the use `u` can get in a run that
/// begins in `state` and hands out numbers up to `end`: none of those numbers, not the
/// symbol that the key of `u` has already, and not the symbol of another kernel.
pub open spec fn pool_apart(
    pools: Pools,
    kernel: Seq<char>,
    u: SharedUse,
    state: SharedState,
    end: usize,
) -> bool {
    pools.contains_key(kernel) ==> match u {
        SharedUse::Static(op) => {
            &&& !is_numbered(pools[kernel].0, state.next as int, end as int)
            &&& shared_alloc_key(op) matches Some(key) ==> (state.table.keys.contains_key(key)
                ==> pools[kernel].0 != state.table.keys[key])
        },
        SharedUse::Dynamic(_) => use_key(u) matches Some(UseKey::Pool(other)) ==> (other != kernel
            && pools.contains_key(other) ==> pools[kernel].0 != pools[other].0),
    }
}

/// Whether no pool that one of two uses of a run points into has a symbol that the other can
/// get.
pub open spec fn pools_apart(
    steps: Seq<SharedStep>,
    pools: Pools,
    state: SharedState,
    i: int,
    j: int,
) -> bool {
    let end = shared_after(steps, pools, state).next;
    &&& use_key(steps[i].op) matches Some(UseKey::Pool(kernel)) ==> pool_apart(
        pools,
        kernel,
        steps[j].op,
        state,
        end,
    )
    &&& use_key(steps[j].op) matches Some(UseKey::Pool(kernel)) ==> pool_apart(
        pools,
        kernel,
        steps[i].op,
        state,
        end,
    )
}

/// Pools that are named after their kernels are apart from everything else in a run, if no
/// key had the name of a pool before.
pub proof fn named_pools_are_apart(
    steps: Seq<SharedStep>,
    pools: Pools,
    state: SharedState,
    i: int,
    j: int,
)
    requires
        forall|kernel: Seq<char>| #[trigger]
            pools.contains_key(kernel) ==> pools[kernel].0 == pool_symbol(kernel),
        forall|key: Seq<char>, kernel: Seq<char>|
            #![trigger state.table.keys[key], pool_symbol(kernel)]
            state.table.keys.contains_key(key) ==> state.table.keys[key] != pool_symbol(kernel),
    ensures
        pools_apart(steps, pools, state, i, j),
{
    assert forall|a: Seq<char>, n: usize|
        #![trigger pools[a], shared_symbol(n)]
        pools.contains_key(a) implies pools[a].0 != shared_symbol(n) by {
        pool_symbols_distinct(a, a, n);
    }
    assert forall|a: Seq<char>, b: Seq<char>|
        #![trigger pools[a], pools[b]]
        a != b && pools.contains_key(a) && pools.contains_key(b) implies pools[a].0
        != pools[b].0 by {
        pool_symbols_distinct(a, b, 0);
    }
}

/// In a run of uses of shared memory, two get addresses in the same global exactly if they
/// are the same use: static allocations with the same key, or pointers into the pool of the
/// same kernel. A static allocation without a key shares its global with no other use, and
/// every kernel has a pool of its own.
pub proof fn shared_uses_share_by_key(
    steps: Seq<SharedStep>,
    pools: Pools,
    state: SharedState,
    i: int,
    j: int,
)
    requires
        shared_inv(state),
        state.next + steps.len() <= usize::MAX,
        0 <= i < j < steps.len(),
        shared_outcome(steps, pools, state, i) is Ok,
        shared_outcome(steps, pools, state, j) is Ok,
        pools_apart(steps, pools, state, i, j),
    ensures
        address_symbol(shared_outcome(steps, pools, state, i)->Ok_0) == address_symbol(
            shared_outcome(steps, pools, state, j)->Ok_0,
        ) <==> same_use(steps[i].op, steps[j].op),
{
    if steps[i].op is Static && steps[j].op is Static {
        lemma_static_uses(steps, pools, state, i, j);
    } else if steps[i].op is Static {
        lemma_static_symbol(steps, pools, state, i);
    } else if steps[j].op is Static {
        lemma_static_symbol(steps, pools, state, j);
    }
}

/// Whether one of the first `n` uses of a run succeeded under `key`.
pub open spec fn used_before(
    steps: Seq<SharedStep>,
    pools: Pools,
    state: SharedState,
    key: UseKey,
    n: int,
) -> bool {
    exists|i: int|
        0 <= i < n && #[trigger] shared_outcome(steps, pools, state, i) is Ok && use_key(
            steps[i].op,
        ) == Some(key)
}

proof fn lemma_keys_of_run(
    steps: Seq<SharedStep>,
    pools: Pools,
    state: SharedState,
    key: UseKey,
    n: int,
)
    requires
        0 <= n <= steps.len(),
    ensures
        is_known(shared_after(steps.take(n), pools, state).table, key) <==> (is_known(
            state.table,
            key,
        ) || used_before(steps, pools, state, key, n)),
    decreases n,
{
    if n > 0 {
        lemma_keys_of_run(steps, pools, state, key, n - 1);
        assert(steps.take(n).drop_last() =~= steps.take(n - 1));
        assert(steps.take(n).last() == steps[n - 1]);
        let last = shared_outcome(steps, pools, state, n - 1);
        if used_before(steps, pools, state, key, n - 1) {
            let i = choose|i: int|
                0 <= i < n - 1 && #[trigger] shared_outcome(steps, pools, state, i) is Ok
                    && use_key(steps[i].op) == Some(key);
            assert(0 <= i < n && shared_outcome(steps, pools, state, i) is Ok);
        }
        if last is Ok && use_key(steps[n - 1].op) == Some(key) {
            assert(used_before(steps, pools, state, key, n));
        }
        if used_before(steps, pools, state, key, n) && !used_before(
            steps,
            pools,
            state,
            key,
            n - 1,
        ) {
            let i = choose|i: int|
                0 <= i < n && #[trigger] shared_outcome(steps, pools, state, i) is Ok && use_key(
                    steps[i].op,
                ) == Some(key);
            assert(i == n - 1);
        }
    }
}

/// In a run of uses of shared memory, a use comes with a new global exactly if it was not
/// known before the run and no earlier use that succeeded was the same. So a global is
/// declared once, however often it is used.
pub proof fn shared_globals_declared_once(
    steps: Seq<SharedStep>,
    pools: Pools,
    state: SharedState,
    j: int,
)
    requires
        0 <= j < steps.len(),
        shared_outcome(steps, pools, state, j) is Ok,
    ensures
        shared_outcome(steps, pools, state, j)->Ok_0.global is Some <==> {
            &&& use_key(steps[j].op) matches Some(key) ==> !is_known(state.table, key)
            &&& forall|i: int|
                0 <= i < j && #[trigger] shared_outcome(steps, pools, state, i) is Ok
                    ==> !same_use(steps[i].op, steps[j].op)
        },
{
    if use_key(steps[j].op) is Some {
        let key = use_key(steps[j].op)->Some_0;
        lemma_keys_of_run(steps, pools, state, key, j);
        assert(used_before(steps, pools, state, key, j) <==> !(forall|i: int|
            0 <= i < j && #[trigger] shared_outcome(steps, pools, state, i) is Ok ==> !same_use(
                steps[i].op,
                steps[j].op,
            )));
    }
}

/// Once the pool of a kernel has been found, it is found again under the same symbol, from
/// anywhere in the kernel, with no global to declare and no pool to enter.
pub proof fn pool_is_declared_once(
    kernel: Seq<char>,
    site: OpSite,
    pools: Pools,
    declared: Map<Seq<char>, Seq<char>>,
    later_site: OpSite,
    later: Map<Seq<char>, Seq<char>>,
)
    requires
        dynamic_smem(kernel, site, pools, declared).0 is Ok,
        dynamic_smem(kernel, site, pools, declared).1.dom().subset_of(later.dom()),
    ensures
        dynamic_smem(kernel, later_site, pools, later).1 == later,
        dynamic_smem(kernel, later_site, pools, later).0 matches Ok((symbol, global)) && symbol
            == dynamic_smem(kernel, site, pools, declared).0->Ok_0.0 && global is None,
{
    assert(dynamic_smem(kernel, site, pools, declared).1.dom().contains(kernel));
}

/// The global of a pool has the alignment computed for its kernel, whatever alignment the
/// use asks for.
pub proof fn pool_alignment_is_precomputed(
    op: MirExternSharedOp,
    other: u64,
    pools: Pools,
    declared: Map<Seq<char>, Seq<char>>,
)
    ensures
        lower_extern_shared(MirExternSharedOp { alignment: other, ..op }, pools, declared)
            == lower_extern_shared(op, pools, declared),
        lower_extern_shared(op, pools, declared).0 matches Ok(r) ==> (r.global matches Some(g)
            ==> {
            let kernel = enclosing_function(op.site)->Ok_0;
            &&& pools.contains_key(kernel)
            &&& g.symbol == pools[kernel].0
            &&& g.alignment == Some(pools[kernel].1)
        }),
{
}

/// The number that the operation at position `i` yields if the global whose address is taken
/// stands at `base`: an address or an integer. `None` for operations that do not compute
/// byte addresses.
pub open spec fn yields(ops: Seq<Inst<Seq<char>>>, i: int, base: int) -> Option<int>
    decreases i,
{
    if !(0 <= i < ops.len()) {
        None
    } else {
        match ops[i] {
            Inst::AddressOf { .. } => Some(base),
            Inst::Constant { number, .. } => Some(number as int),
            Inst::GetElementPtr { base: Value::ResultOf(b), index: Value::ResultOf(k), elem_type } =>
                if elem_type == LlvmType::Integer(8) && b < i && k < i {
                match (yields(ops, b as int, base), yields(ops, k as int, base)) {
                    (Some(start), Some(bytes)) => Some(start + bytes),
                    _ => None,
                }
            } else {
                None
            },
            _ => None,
        }
    }
}

/// A pointer into dynamic shared memory is as many bytes past the start of the pool as the
/// operation says.
pub proof fn dynamic_offsets_count_bytes(
    op: MirExternSharedOp,
    pools: Pools,
    declared: Map<Seq<char>, Seq<char>>,
    base: int,
)
    ensures
        lower_extern_shared(op, pools, declared).0 matches Ok(r) ==> (r.replacement matches
            Replacement::Op(i) && yields(r.ops, i as int, base) == Some(base + op.byte_offset)),
{
    reveal_with_fuel(yields, 2);
}

/// Shared memory is in the shared address space: both the globals made for it and the
/// addresses taken of them. A new global is the one whose address is taken.
pub proof fn shared_uses_are_in_shared_memory(step: SharedStep, pools: Pools, state: SharedState)
    ensures
        lower_shared_use(step, pools, state).0 matches Ok(r) ==> {
            &&& r.ops[0] == (Inst::AddressOf {
                symbol: address_symbol(r),
                address_space: address_space::SHARED,
            })
            &&& r.global matches Some(g) ==> g.address_space == address_space::SHARED && g.symbol
                == address_symbol(r)
        },
{
}

/// A use of shared memory that fails leaves the table as it was.
pub proof fn failed_shared_use_enters_nothing(step: SharedStep, pools: Pools, state: SharedState)
    requires
        lower_shared_use(step, pools, state).0 is Err,
    ensures
        lower_shared_use(step, pools, state).1.table == state.table,
{
}

} // verus!
