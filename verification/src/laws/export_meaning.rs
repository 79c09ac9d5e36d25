//! What the exporter writes, and the types it finds.

use crate::export::state::{ptr_cast_name, ModuleExportState};
use crate::export::typed_ptr::{
    after_cast_to, after_cast_to_i8, gep_elem_type, typed_ptr, GepIndexAttr, Rendered,
};
use crate::laws::numerals::{
    is_numbered_text, is_numeral_of, lemma_decimal_reads_back, lemma_numbered,
};
use crate::text::decimal;
use crate::types::{TypeId, TypeObj, TypeTable};
use vstd::prelude::*;

verus! {

/// A new state has written nothing, knows no function and no global, and makes the choices
/// it was given.
pub proof fn new_state_is_empty<'a>(
    ctx: &'a TypeTable,
    track_all_kernels: bool,
    emit_ptx_kernel_keyword: bool,
    typed_pointers: bool,
    state: ModuleExportState<'a>,
)
    requires
        call_ensures(
            ModuleExportState::new,
            (ctx, track_all_kernels, emit_ptx_kernel_keyword, typed_pointers),
            state,
        ),
    ensures
        state.ctx == ctx,
        state.track_all_kernels == track_all_kernels,
        state.emit_ptx_kernel_keyword == emit_ptx_kernel_keyword,
        state.typed_pointers == typed_pointers,
        state.ptr_cast_counter == 0,
        !state.convergent_used,
        state.cluster_kernels@.len() == 0,
        state.launch_bounds_kernels@.len() == 0,
        state.all_kernels@.len() == 0,
        state.device_functions@.len() == 0,
        forall|name: Seq<char>| !(#[trigger] state.fn_ptr_types@.contains_key(name)),
        forall|name: Seq<char>| !(#[trigger] state.global_value_types@.contains_key(name)),
{
}

/// Whether `after` is `before` with one more name for a pointer cast handed out, and nothing
/// else changed.
pub open spec fn has_handed_out_one(before: ModuleExportState, after: ModuleExportState) -> bool {
    &&& after.ptr_cast_counter == before.ptr_cast_counter + 1
    &&& after.ctx == before.ctx
    &&& after.convergent_used == before.convergent_used
    &&& after.cluster_kernels == before.cluster_kernels
    &&& after.launch_bounds_kernels == before.launch_bounds_kernels
    &&& after.all_kernels == before.all_kernels
    &&& after.track_all_kernels == before.track_all_kernels
    &&& after.emit_ptx_kernel_keyword == before.emit_ptx_kernel_keyword
    &&& after.device_functions == before.device_functions
    &&& after.typed_pointers == before.typed_pointers
    &&& after.fn_ptr_types == before.fn_ptr_types
    &&& after.global_value_types == before.global_value_types
}

/// The names of pointer casts are numbered one after the other.
pub proof fn cast_names_are_numbered<'a>(state: &mut ModuleExportState<'a>, name: String)
    requires
        old(state).ptr_cast_counter < usize::MAX,
        call_ensures(ModuleExportState::fresh_ptr_cast_name, (state,), name),
    ensures
        is_numbered_text(name@, "%__ptrcast."@, old(state).ptr_cast_counter as int),
        has_handed_out_one(*old(state), *final(state)),
{
    lemma_numbered("%__ptrcast."@, old(state).ptr_cast_counter as nat);
}

/// The families of intrinsics that threads execute together, by the beginning of their names:
/// barriers, mbarriers, shuffles, votes and asynchronous bulk copies.
pub open spec fn convergent_families() -> Set<Seq<char>> {
    set![
        "llvm.nvvm.barrier"@,
        "llvm.nvvm.mbarrier"@,
        "llvm.nvvm.shfl"@,
        "llvm.nvvm.vote"@,
        "llvm.nvvm.cp.async.bulk"@,
    ]
}

/// A function is a convergent intrinsic exactly if its name is that of a family with anything
/// after it.
pub proof fn convergent_intrinsics_belong_to_families(name: &str, r: bool)
    requires
        call_ensures(ModuleExportState::is_convergent_intrinsic, (name,), r),
    ensures
        r <==> exists|family: Seq<char>, rest: Seq<char>|
            convergent_families().contains(family) && name@ == #[trigger] (family + rest),
{
    assert forall|family: Seq<char>, rest: Seq<char>|
        convergent_families().contains(family) && name@ == #[trigger] (family + rest) implies r by {
        assert((family + rest).take(family.len() as int) =~= family);
        assert(family.is_prefix_of(name@));
    }
    assert forall|family: Seq<char>|
        convergent_families().contains(family) && #[trigger] family.is_prefix_of(name@) implies
        exists|f: Seq<char>, rest: Seq<char>|
            convergent_families().contains(f) && name@ == #[trigger] (f + rest) by {
        assert(name@ =~= family + name@.skip(family.len() as int));
    }
    assert(convergent_families().contains("llvm.nvvm.barrier"@));
    assert(convergent_families().contains("llvm.nvvm.mbarrier"@));
    assert(convergent_families().contains("llvm.nvvm.shfl"@));
    assert(convergent_families().contains("llvm.nvvm.vote"@));
    assert(convergent_families().contains("llvm.nvvm.cp.async.bulk"@));
}

/// The type of a pointer to `pointee`; `numeral` is the number of its address space. The
/// generic address space is not written.
pub open spec fn pointer_text(
    pointee: Seq<char>,
    addrspace: u32,
    numeral: Seq<char>,
) -> Seq<char> {
    if addrspace == 0 {
        pointee + "*"@
    } else {
        pointee + " addrspace("@ + numeral + ")*"@
    }
}

proof fn lemma_pointer_text(pointee: Seq<char>, addrspace: u32)
    ensures
        typed_ptr(pointee, addrspace) == pointer_text(pointee, addrspace, decimal(addrspace as nat)),
{
    assert(typed_ptr(pointee, addrspace) =~= pointer_text(
        pointee,
        addrspace,
        decimal(addrspace as nat),
    ));
}

/// The cast of a pointer to `pointee` is one line after what was written before. The line
/// gives the result a fresh name, takes the pointer as an `i8` pointer and makes a pointer to
/// `pointee` of it, both in the given address space. If the pointer or the pointee cannot be
/// rendered, the line ends there and the first error is returned. The name is used up in any
/// case.
pub proof fn cast_to_pointee_is_one_line<'a>(
    state: &mut ModuleExportState<'a>,
    ptr_val: &Rendered,
    pointee: &Rendered,
    addrspace: u32,
    output: &mut String,
    r: Result<String, String>,
)
    requires
        old(state).ptr_cast_counter < usize::MAX,
        call_ensures(
            ModuleExportState::emit_ptr_cast_to,
            (state, ptr_val, pointee, addrspace, output),
            r,
        ),
    ensures
        has_handed_out_one(*old(state), *final(state)),
        match ptr_val.outcome {
            Err(e) => r matches Err(f) && f@ == e@,
            Ok(()) => match pointee.outcome {
                Err(e) => r matches Err(f) && f@ == e@,
                Ok(()) => r matches Ok(name) && is_numbered_text(
                    name@,
                    "%__ptrcast."@,
                    old(state).ptr_cast_counter as int,
                ),
            },
        },
        exists|numeral: Seq<char>, name: Seq<char>|
            {
                &&& #[trigger] is_numeral_of(numeral, addrspace as int)
                &&& #[trigger] is_numbered_text(
                    name,
                    "%__ptrcast."@,
                    old(state).ptr_cast_counter as int,
                )
                &&& r matches Ok(n) ==> n@ == name
                &&& final(output)@ == old(output)@ + "  "@ + name + " = bitcast "@ + pointer_text(
                    "i8"@,
                    addrspace,
                    numeral,
                ) + " "@ + ptr_val.text@ + (if ptr_val.outcome is Err {
                    Seq::empty()
                } else if pointee.outcome is Err {
                    " to "@ + pointee.text@
                } else {
                    " to "@ + pointer_text(pointee.text@, addrspace, numeral) + "\n"@
                })
            },
{
    let n = old(state).ptr_cast_counter;
    let name = ptr_cast_name(n);
    let numeral = decimal(addrspace as nat);
    lemma_numbered("%__ptrcast."@, n as nat);
    lemma_decimal_reads_back(addrspace as nat);
    lemma_pointer_text("i8"@, addrspace);
    lemma_pointer_text(pointee.text@, addrspace);
    assert(is_numeral_of(numeral, addrspace as int));
    assert(is_numbered_text(name, "%__ptrcast."@, n as int));
    assert(after_cast_to(old(output)@, name, *ptr_val, *pointee, addrspace) =~= old(output)@
        + "  "@ + name + " = bitcast "@ + pointer_text("i8"@, addrspace, numeral) + " "@
        + ptr_val.text@ + (if ptr_val.outcome is Err {
        Seq::empty()
    } else if pointee.outcome is Err {
        " to "@ + pointee.text@
    } else {
        " to "@ + pointer_text(pointee.text@, addrspace, numeral) + "\n"@
    }));
}

/// The cast of a pointer to `pointee` back to an `i8` pointer is one line after what was
/// written before. The line gives the result the given name. If the pointee cannot be
/// rendered, the line ends there and the error is returned. The state stays as it was.
pub proof fn cast_to_i8_is_one_line<'a>(
    state: &mut ModuleExportState<'a>,
    src_name: &str,
    pointee: &Rendered,
    addrspace: u32,
    result_name: &str,
    output: &mut String,
    r: Result<(), String>,
)
    requires
        call_ensures(
            ModuleExportState::emit_ptr_cast_to_i8,
            (state, src_name, pointee, addrspace, result_name, output),
            r,
        ),
    ensures
        *final(state) == *old(state),
        match pointee.outcome {
            Err(e) => r matches Err(f) && f@ == e@,
            Ok(()) => r is Ok,
        },
        exists|numeral: Seq<char>|
            {
                &&& #[trigger] is_numeral_of(numeral, addrspace as int)
                &&& final(output)@ == old(output)@ + "  "@ + result_name@ + " = bitcast "@ + (
                if pointee.outcome is Err {
                    pointee.text@
                } else {
                    pointer_text(pointee.text@, addrspace, numeral) + " "@ + src_name@ + " to "@
                        + pointer_text("i8"@, addrspace, numeral) + "\n"@
                })
            },
{
    let numeral = decimal(addrspace as nat);
    lemma_decimal_reads_back(addrspace as nat);
    lemma_pointer_text("i8"@, addrspace);
    lemma_pointer_text(pointee.text@, addrspace);
    assert(is_numeral_of(numeral, addrspace as int));
    assert(after_cast_to_i8(old(output)@, src_name@, *pointee, addrspace, result_name@)
        =~= old(output)@ + "  "@ + result_name@ + " = bitcast "@ + (if pointee.outcome is Err {
        pointee.text@
    } else {
        pointer_text(pointee.text@, addrspace, numeral) + " "@ + src_name@ + " to "@ + pointer_text(
            "i8"@,
            addrspace,
            numeral,
        ) + "\n"@
    }));
}

/// A `getelementptr` with no index or one yields what it started from.
pub proof fn gep_first_index_stays<'a>(
    state: &ModuleExportState<'a>,
    src_elem: TypeId,
    indices: &[GepIndexAttr],
    r: Result<TypeId, String>,
)
    requires
        state.ctx.wf(),
        state.ctx.has(src_elem),
        indices@.len() <= 1,
        call_ensures(ModuleExportState::gep_result_elem_type, (state, src_elem, indices), r),
    ensures
        r == Ok::<TypeId, String>(src_elem),
{
}

/// A `getelementptr` with two indices yields what lies one level inside: the declared element
/// of an array or a vector, whatever the index and whatever the element is, or the field of a
/// struct that the constant names. There is nothing inside any other type, nor in a struct
/// behind an index that is not constant or names no field.
pub proof fn gep_second_index_goes_one_level_down<'a>(
    state: &ModuleExportState<'a>,
    src_elem: TypeId,
    indices: &[GepIndexAttr],
    r: Result<TypeId, String>,
)
    requires
        state.ctx.wf(),
        state.ctx.has(src_elem),
        indices@.len() == 2,
        call_ensures(ModuleExportState::gep_result_elem_type, (state, src_elem, indices), r),
    ensures
        match state.ctx.types@[src_elem.0 as int].obj {
            TypeObj::Array { elem, .. } => r == Ok::<TypeId, String>(elem),
            TypeObj::Vector { elem, .. } => r == Ok::<TypeId, String>(elem),
            TypeObj::Struct { fields } => match indices@[1] {
                GepIndexAttr::Constant(c) => if c < fields@.len() {
                    r == Ok::<TypeId, String>(fields@[c as int])
                } else {
                    r matches Err(e) && e@ == "typed-pointer GEP struct index out of range"@
                },
                GepIndexAttr::OperandIdx(_) => r matches Err(e) && e@
                    == "typed-pointer GEP into a struct needs a constant index"@,
            },
            _ => r matches Err(e) && e@ == "typed-pointer GEP descends into a non-aggregate type"@,
        },
{
    reveal_with_fuel(gep_elem_type, 2);
    assert(indices@.drop_last().len() == 1);
}

/// A `getelementptr` with one more index goes one level further: it yields what two indices
/// yield from the type that the shorter one ended at, the second of them being the one more.
/// Where the shorter one fails, so does the longer, with the same message.
pub proof fn gep_more_indices_go_further<'a>(
    state: &ModuleExportState<'a>,
    src_elem: TypeId,
    shorter: &[GepIndexAttr],
    short: Result<TypeId, String>,
    longer: &[GepIndexAttr],
    long: Result<TypeId, String>,
    two: &[GepIndexAttr],
    last: Result<TypeId, String>,
)
    requires
        state.ctx.wf(),
        state.ctx.has(src_elem),
        shorter@.len() > 0,
        two@.len() == 2,
        longer@ == shorter@.push(two@[1]),
        call_ensures(ModuleExportState::gep_result_elem_type, (state, src_elem, shorter), short),
        call_ensures(ModuleExportState::gep_result_elem_type, (state, src_elem, longer), long),
        short matches Ok(ty) ==> call_ensures(
            ModuleExportState::gep_result_elem_type,
            (state, ty, two),
            last,
        ),
    ensures
        match short {
            Ok(_) => match last {
                Ok(ty) => long == Ok::<TypeId, String>(ty),
                Err(e) => long matches Err(f) && f@ == e@,
            },
            Err(e) => long matches Err(f) && f@ == e@,
        },
{
    reveal_with_fuel(gep_elem_type, 2);
    assert(longer@.drop_last() =~= shorter@);
    assert(two@.drop_last().len() == 1);
}

} // verus!
