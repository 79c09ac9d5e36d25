//! Generated symbols never collide.

use crate::globals::{device_symbol, lemma_numbered_identifier, shared_symbol};
use crate::ir::RewriteView;
use crate::text::{decimal, decimal_injective, is_identifier};
use vstd::prelude::*;

verus! {

pub(crate) proof fn lemma_numbered_injective(prefix: Seq<char>, m: nat, n: nat)
    requires
        prefix + decimal(m) == prefix + decimal(n),
    ensures
        m == n,
{
    let s = prefix + decimal(m);
    let t = prefix + decimal(n);
    assert(s.skip(prefix.len() as int) =~= decimal(m));
    assert(t.skip(prefix.len() as int) =~= decimal(n));
    decimal_injective(m, n);
}

/// Distinct numbers give distinct symbols for static shared allocations.
pub proof fn shared_symbols_distinct(m: usize, n: usize)
    requires
        m != n,
    ensures
        shared_symbol(m) != shared_symbol(n),
{
    if shared_symbol(m) == shared_symbol(n) {
        lemma_numbered_injective("__shared_mem_"@, m as nat, n as nat);
    }
}

/// Distinct numbers give distinct symbols for device globals.
pub proof fn device_symbols_distinct(m: usize, n: usize)
    requires
        m != n,
    ensures
        device_symbol(m) != device_symbol(n),
{
    if device_symbol(m) == device_symbol(n) {
        lemma_numbered_injective("__device_global_"@, m as nat, n as nat);
    }
}

/// No static shared allocation has the symbol of a numbered device global.
pub proof fn shared_and_device_symbols_differ(m: usize, n: usize)
    ensures
        shared_symbol(m) != device_symbol(n),
{
    reveal_strlit("__shared_mem_");
    reveal_strlit("__device_global_");
    assert(shared_symbol(m)[2] == 's');
    assert(device_symbol(n)[2] == 'd');
}

/// Every numbered symbol is an identifier.
pub proof fn numbered_symbols_are_identifiers(n: usize)
    ensures
        is_identifier(shared_symbol(n)),
        is_identifier(device_symbol(n)),
{
    reveal_strlit("__shared_mem_");
    reveal_strlit("__device_global_");
    lemma_numbered_identifier("__shared_mem_"@, n as nat);
    lemma_numbered_identifier("__device_global_"@, n as nat);
}

/// The symbol whose address a rewrite takes first.
pub open spec fn address_symbol(r: RewriteView) -> Seq<char> {
    r.ops[0]->AddressOf_symbol
}

} // verus!
