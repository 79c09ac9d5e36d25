//! Typed-pointer export.
//!
//! Every pointer is rendered as `i8 addrspace(N)*`. A precise pointer type appears only at
//! the memory operation that needs it, through a `bitcast` before or after.

use crate::export::state::{ptr_cast_name, ModuleExportState};
use crate::text::{decimal, decimal_text};
use crate::types::{TypeId, TypeObj, TypeTable};
use vstd::prelude::*;
use vstd::string::*;

verus! {

/// An index of a `getelementptr`: a constant, or the place of an operand.
#[derive(Clone, Copy, PartialEq, Eq, Structural, Debug)]
pub enum GepIndexAttr {
    Constant(u32),
    OperandIdx(usize),
}

/// What a renderer of a value or a type has appended to the output, and how it ended.
#[derive(Debug)]
pub struct Rendered {
    pub text: String,
    pub outcome: Result<(), String>,
}

/// What follows the pointee in a pointer type.
pub open spec fn ptr_suffix(addrspace: u32) -> Seq<char> {
    if addrspace != 0 {
        " addrspace("@ + decimal(addrspace as nat) + ")*"@
    } else {
        "*"@
    }
}

/// The type of a pointer to `pointee`.
pub open spec fn typed_ptr(pointee: Seq<char>, addrspace: u32) -> Seq<char> {
    pointee + ptr_suffix(addrspace)
}

/// The line that casts the pointer `src` of type `from` to type `to` under the name
/// `result`.
pub open spec fn bitcast_line(
    result: Seq<char>,
    from: Seq<char>,
    src: Seq<char>,
    to: Seq<char>,
) -> Seq<char> {
    "  "@ + result + " = bitcast "@ + from + " "@ + src + " to "@ + to + "\n"@
}

/// The output when a cast to `pointee` is written after `before`: the whole line, or the
/// part of it that came before a renderer failed.
pub open spec fn after_cast_to(
    before: Seq<char>,
    name: Seq<char>,
    ptr_val: Rendered,
    pointee: Rendered,
    addrspace: u32,
) -> Seq<char> {
    let start = "  "@ + name + " = bitcast "@ + typed_ptr("i8"@, addrspace) + " "@ + ptr_val.text@;
    if ptr_val.outcome is Err {
        before + start
    } else if pointee.outcome is Err {
        before + start + " to "@ + pointee.text@
    } else {
        before + bitcast_line(
            name,
            typed_ptr("i8"@, addrspace),
            ptr_val.text@,
            typed_ptr(pointee.text@, addrspace),
        )
    }
}

/// The output when a cast from `pointee` is written after `before`: the whole line, or the
/// part of it that came before the renderer failed.
pub open spec fn after_cast_to_i8(
    before: Seq<char>,
    src_name: Seq<char>,
    pointee: Rendered,
    addrspace: u32,
    result_name: Seq<char>,
) -> Seq<char> {
    if pointee.outcome is Err {
        before + "  "@ + result_name + " = bitcast "@ + pointee.text@
    } else {
        before + bitcast_line(
            result_name,
            typed_ptr(pointee.text@, addrspace),
            src_name,
            typed_ptr("i8"@, addrspace),
        )
    }
}

/// The error of the first renderer that failed.
pub open spec fn first_error(ptr_val: Rendered, pointee: Rendered) -> Option<Seq<char>> {
    match ptr_val.outcome {
        Err(e) => Some(e@),
        Ok(()) => match pointee.outcome {
            Err(e) => Some(e@),
            Ok(()) => None,
        },
    }
}

/// Writes what follows the pointee in a pointer type.
fn write_ptr_suffix(addrspace: u32, output: &mut String)
    ensures
        final(output)@ == old(output)@ + ptr_suffix(addrspace),
{
    if addrspace != 0 {
        output.append(" addrspace(");
        output.append(decimal_text(addrspace as u64).as_str());
        output.append(")*");
    } else {
        output.append("*");
    }
    assert(output@ =~= old(output)@ + ptr_suffix(addrspace));
}

/// Writes a pointer type, given how its pointee was rendered.
fn write_typed_ptr(pointee: &Rendered, addrspace: u32, output: &mut String) -> (r: Result<
    (),
    String,
>)
    ensures
        match pointee.outcome {
            Ok(()) => r is Ok && final(output)@ == old(output)@ + typed_ptr(
                pointee.text@,
                addrspace,
            ),
            Err(e) => r == Err::<(), String>(e) && final(output)@ == old(output)@ + pointee.text@,
        },
{
    output.append(pointee.text.as_str());
    match &pointee.outcome {
        Ok(()) => {
            write_ptr_suffix(addrspace, output);
            assert(output@ =~= old(output)@ + typed_ptr(pointee.text@, addrspace));
            Ok(())
        },
        Err(e) => Err(e.clone()),
    }
}

/// The type found inside `ty` by one more index, or the message why there is none.
pub open spec fn descend(
    ctx: TypeTable,
    ty: TypeId,
    index: GepIndexAttr,
) -> Result<TypeId, Seq<char>> {
    match ctx.obj(ty) {
        TypeObj::Array { elem, .. } => Ok(elem),
        TypeObj::Vector { elem, .. } => Ok(elem),
        TypeObj::Struct { fields } => match index {
            GepIndexAttr::Constant(c) => if c < fields@.len() {
                Ok(fields@[c as int])
            } else {
                Err("typed-pointer GEP struct index out of range"@)
            },
            GepIndexAttr::OperandIdx(_) => Err(
                "typed-pointer GEP into a struct needs a constant index"@,
            ),
        },
        _ => Err("typed-pointer GEP descends into a non-aggregate type"@),
    }
}

/// The element type of a `getelementptr` result. The first index steps over the pointer and
/// changes no type; each later one descends into an aggregate.
pub open spec fn gep_elem_type(
    ctx: TypeTable,
    src_elem: TypeId,
    indices: Seq<GepIndexAttr>,
) -> Result<TypeId, Seq<char>>
    decreases indices.len(),
{
    if indices.len() <= 1 {
        Ok(src_elem)
    } else {
        match gep_elem_type(ctx, src_elem, indices.drop_last()) {
            Ok(ty) => descend(ctx, ty, indices.last()),
            Err(e) => Err(e),
        }
    }
}

proof fn lemma_gep_error_stays(
    ctx: TypeTable,
    src_elem: TypeId,
    indices: Seq<GepIndexAttr>,
    n: int,
)
    requires
        0 <= n <= indices.len(),
        gep_elem_type(ctx, src_elem, indices.take(n)) is Err,
    ensures
        gep_elem_type(ctx, src_elem, indices) == gep_elem_type(ctx, src_elem, indices.take(n)),
    decreases indices.len() - n,
{
    if n == indices.len() {
        assert(indices.take(n) =~= indices);
    } else {
        assert(indices.take(n + 1).drop_last() =~= indices.take(n));
        lemma_gep_error_stays(ctx, src_elem, indices, n + 1);
    }
}

impl<'a> ModuleExportState<'a> {
    /// Writes the cast of an `i8` pointer to a pointer to `pointee`, and returns the fresh
    /// name of the result. `ptr_val` and `pointee` are how the pointer and the pointee type
    /// render.
    pub fn emit_ptr_cast_to(
        &mut self,
        ptr_val: &Rendered,
        pointee: &Rendered,
        addrspace: u32,
        output: &mut String,
    ) -> (r: Result<String, String>)
        requires
            old(self).ptr_cast_counter < usize::MAX,
        ensures
            *final(self) == (ModuleExportState {
                ptr_cast_counter: (old(self).ptr_cast_counter + 1) as usize,
                ..*old(self)
            }),
            final(output)@ == after_cast_to(
                old(output)@,
                ptr_cast_name(old(self).ptr_cast_counter),
                *ptr_val,
                *pointee,
                addrspace,
            ),
            match first_error(*ptr_val, *pointee) {
                None => r matches Ok(name) && name@ == ptr_cast_name(
                    old(self).ptr_cast_counter,
                ),
                Some(e) => r matches Err(f) && f@ == e,
            },
    {
        let name = self.fresh_ptr_cast_name();
        output.append("  ");
        output.append(name.as_str());
        output.append(" = bitcast ");
        output.append("i8");
        write_ptr_suffix(addrspace, output);
        output.append(" ");
        output.append(ptr_val.text.as_str());
        let ghost start = "  "@ + name@ + " = bitcast "@ + typed_ptr("i8"@, addrspace) + " "@
            + ptr_val.text@;
        assert(output@ =~= old(output)@ + start);
        if let Err(e) = &ptr_val.outcome {
            return Err(e.clone());
        }
        output.append(" to ");
        if let Err(e) = write_typed_ptr(pointee, addrspace, output) {
            return Err(e);
        }
        output.append("\n");
        assert(output@ =~= old(output)@ + bitcast_line(
            name@,
            typed_ptr("i8"@, addrspace),
            ptr_val.text@,
            typed_ptr(pointee.text@, addrspace),
        ));
        Ok(name)
    }

    /// Writes the cast of the pointer `src_name` to `pointee` back to an `i8` pointer under
    /// the name `result_name`. `pointee` is how the pointee type renders.
    pub fn emit_ptr_cast_to_i8(
        &mut self,
        src_name: &str,
        pointee: &Rendered,
        addrspace: u32,
        result_name: &str,
        output: &mut String,
    ) -> (r: Result<(), String>)
        ensures
            *final(self) == *old(self),
            final(output)@ == after_cast_to_i8(
                old(output)@,
                src_name@,
                *pointee,
                addrspace,
                result_name@,
            ),
            match pointee.outcome {
                Ok(()) => r is Ok,
                Err(e) => r == Err::<(), String>(e),
            },
    {
        output.append("  ");
        output.append(result_name);
        output.append(" = bitcast ");
        if let Err(e) = write_typed_ptr(pointee, addrspace, output) {
            return Err(e);
        }
        output.append(" ");
        output.append(src_name);
        output.append(" to ");
        output.append("i8");
        write_ptr_suffix(addrspace, output);
        output.append("\n");
        assert(output@ =~= old(output)@ + bitcast_line(
            result_name@,
            typed_ptr(pointee.text@, addrspace),
            src_name@,
            typed_ptr("i8"@, addrspace),
        ));
        Ok(())
    }

    /// The element type that a `getelementptr` yields, so that its result can be cast back
    /// to an `i8` pointer.
    pub fn gep_result_elem_type(
        &self,
        src_elem: TypeId,
        indices: &[GepIndexAttr],
    ) -> (r: Result<TypeId, String>)
        requires
            self.ctx.wf(),
            self.ctx.has(src_elem),
        ensures
            match gep_elem_type(*self.ctx, src_elem, indices@) {
                Ok(ty) => r == Ok::<TypeId, String>(ty),
                Err(e) => r matches Err(f) && f@ == e,
            },
            r matches Ok(ty) ==> self.ctx.has(ty),
    {
        let mut cur = src_elem;
        let mut i: usize = 1;
        while i < indices.len()
            invariant
                self.ctx.wf(),
                self.ctx.has(cur),
                1 <= i,
                i <= indices@.len() || i == 1,
                i <= indices@.len() ==> gep_elem_type(
                    *self.ctx,
                    src_elem,
                    indices@.take(i as int),
                ) == Ok::<TypeId, Seq<char>>(cur),
                i == 1 ==> cur == src_elem,
            decreases indices@.len() - i,
        {
            let ghost before = cur;
            assert(indices@.take(i + 1).drop_last() =~= indices@.take(i as int));
            let ghost found = descend(*self.ctx, before, indices@[i as int]);
            assert(gep_elem_type(*self.ctx, src_elem, indices@.take(i + 1)) == found);
            proof {
                if found is Err {
                    lemma_gep_error_stays(*self.ctx, src_elem, indices@, i + 1);
                }
            }
            match &self.ctx.types[cur.0].obj {
                TypeObj::Array { elem, .. } => {
                    cur = *elem;
                },
                TypeObj::Vector { elem, .. } => {
                    cur = *elem;
                },
                TypeObj::Struct { fields } => {
                    let field: usize = match indices[i] {
                        GepIndexAttr::Constant(c) => c as usize,
                        GepIndexAttr::OperandIdx(_) => {
                            return Err(
                                "typed-pointer GEP into a struct needs a constant index".to_owned(),
                            );
                        },
                    };
                    if field >= fields.len() {
                        return Err("typed-pointer GEP struct index out of range".to_owned());
                    }
                    cur = fields[field];
                },
                _ => {
                    return Err(
                        "typed-pointer GEP descends into a non-aggregate type".to_owned(),
                    );
                },
            }
            i = i + 1;
        }
        assert(indices@.len() > 1 ==> indices@.take(i as int) =~= indices@);
        Ok(cur)
    }
}

} // verus!
