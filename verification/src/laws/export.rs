//! The exporter: names, casts and element types.

use crate::export::state::{is_convergent, ptr_cast_name};
use crate::export::typed_ptr::{
    after_cast_to, after_cast_to_i8, bitcast_line, gep_elem_type, typed_ptr, GepIndexAttr, Rendered,
};
use crate::laws::symbols::lemma_numbered_injective;
use crate::types::{TypeId, TypeTable};
use vstd::prelude::*;

verus! {

/// The names of pointer casts are distinct, and none of them begins like the `%v` names of
/// ordinary values.
pub proof fn ptr_cast_names_distinct(m: usize, n: usize)
    ensures
        m != n ==> ptr_cast_name(m) != ptr_cast_name(n),
        !"%v"@.is_prefix_of(ptr_cast_name(n)),
{
    reveal_strlit("%__ptrcast.");
    reveal_strlit("%v");
    if ptr_cast_name(m) == ptr_cast_name(n) {
        lemma_numbered_injective("%__ptrcast."@, m as nat, n as nat);
    }
    assert(ptr_cast_name(n)[1] == '_');
    if "%v"@.is_prefix_of(ptr_cast_name(n)) {
        assert("%v"@[1] == ptr_cast_name(n).take(2)[1]);
    }
}

/// A name that continues that of a convergent intrinsic is convergent too.
pub proof fn convergent_names_extend(name: Seq<char>, suffix: Seq<char>)
    requires
        is_convergent(name),
    ensures
        is_convergent(name + suffix),
{
    assert forall|p: Seq<char>| p.is_prefix_of(name) implies #[trigger] p.is_prefix_of(
        name + suffix,
    ) by {
        assert((name + suffix).take(p.len() as int) =~= name.take(p.len() as int));
    }
}

/// Writing a cast only appends, whether or not it succeeds.
pub proof fn casts_append(
    before: Seq<char>,
    name: Seq<char>,
    src: Seq<char>,
    ptr_val: Rendered,
    pointee: Rendered,
    addrspace: u32,
)
    ensures
        before.is_prefix_of(after_cast_to(before, name, ptr_val, pointee, addrspace)),
        before.is_prefix_of(after_cast_to_i8(before, src, pointee, addrspace, name)),
{
    let a = after_cast_to(before, name, ptr_val, pointee, addrspace);
    let b = after_cast_to_i8(before, src, pointee, addrspace, name);
    assert(a.take(before.len() as int) =~= before);
    assert(b.take(before.len() as int) =~= before);
}

/// A cast to a pointee and the cast of its result back are two lines, of which the second
/// swaps the types of the first: the result is an `i8` pointer again, in the same address
/// space.
pub proof fn casts_restore_the_i8_pointer(
    before: Seq<char>,
    name: Seq<char>,
    result: Seq<char>,
    ptr_val: Rendered,
    pointee: Rendered,
    addrspace: u32,
)
    requires
        ptr_val.outcome is Ok,
        pointee.outcome is Ok,
    ensures
        ({
            let i8_ptr = typed_ptr("i8"@, addrspace);
            let precise = typed_ptr(pointee.text@, addrspace);
            after_cast_to_i8(
                after_cast_to(before, name, ptr_val, pointee, addrspace),
                name,
                pointee,
                addrspace,
                result,
            ) == before + bitcast_line(name, i8_ptr, ptr_val.text@, precise) + bitcast_line(
                result,
                precise,
                name,
                i8_ptr,
            )
        }),
{
}

/// The first index of a `getelementptr` never changes the element type.
pub proof fn gep_first_index_is_free(
    ctx: TypeTable,
    src_elem: TypeId,
    indices: Seq<GepIndexAttr>,
    other: GepIndexAttr,
)
    requires
        indices.len() > 0,
    ensures
        gep_elem_type(ctx, src_elem, indices.update(0, other)) == gep_elem_type(
            ctx,
            src_elem,
            indices,
        ),
    decreases indices.len(),
{
    if indices.len() > 1 {
        gep_first_index_is_free(ctx, src_elem, indices.drop_last(), other);
        assert(indices.update(0, other).drop_last() =~= indices.drop_last().update(0, other));
    }
}

/// A `getelementptr` with more indices goes on from where one with fewer ends.
pub proof fn gep_goes_on(
    ctx: TypeTable,
    src_elem: TypeId,
    indices: Seq<GepIndexAttr>,
    first: GepIndexAttr,
    more: Seq<GepIndexAttr>,
)
    requires
        indices.len() > 0,
    ensures
        gep_elem_type(ctx, src_elem, indices + more) == match gep_elem_type(
            ctx,
            src_elem,
            indices,
        ) {
            Ok(ty) => gep_elem_type(ctx, ty, seq![first] + more),
            Err(e) => Err(e),
        },
    decreases more.len(),
{
    if more.len() == 0 {
        assert(indices + more =~= indices);
    } else {
        gep_goes_on(ctx, src_elem, indices, first, more.drop_last());
        assert((indices + more).drop_last() =~= indices + more.drop_last());
        assert((seq![first] + more).drop_last() =~= seq![first] + more.drop_last());
        assert((indices + more).last() == more.last());
        assert((seq![first] + more).last() == more.last());
    }
}

} // verus!
