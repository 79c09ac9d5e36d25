//! The types of a program, as far as lowering and export look into them.

use crate::error::{LowerCause, LowerError, LowerFailure};
use vstd::prelude::*;

verus! {

/// The handle of a type in a `TypeTable`.
#[derive(Clone, Copy, PartialEq, Eq, Structural, Debug)]
pub struct TypeId(pub usize);

/// A MIR pointer: what it points to, and where.
#[derive(Clone, Copy, PartialEq, Eq, Structural, Debug)]
pub struct MirPtrType {
    pub pointee: TypeId,
    pub address_space: u32,
}

/// The shape of a type. `Other` stands for every type that is never looked into.
#[derive(Debug)]
pub enum TypeObj {
    Integer { width: u32 },
    Array { elem: TypeId, len: u64 },
    Vector { elem: TypeId, len: u64 },
    Struct { fields: Vec<TypeId> },
    MirPtr(MirPtrType),
    Other,
}

/// A type of the program: its shape, and the LLVM type that it converts to, or the
/// reason why it converts to none.
#[derive(Debug)]
pub struct TypeRecord {
    pub obj: TypeObj,
    pub lowered: Result<TypeId, String>,
}

/// The types of a program. A `TypeId` is the place of a type in `types`.
#[derive(Debug)]
pub struct TypeTable {
    pub types: Vec<TypeRecord>,
}

impl TypeTable {
    /// Whether `ty` is the handle of a type of this table.
    pub open spec fn has(self, ty: TypeId) -> bool {
        ty.0 < self.types@.len()
    }

    /// The shape of `ty`.
    pub open spec fn obj(self, ty: TypeId) -> TypeObj {
        self.types@[ty.0 as int].obj
    }

    /// Every type is made of types of this table.
    pub open spec fn wf(self) -> bool {
        forall|ty: TypeId| #[trigger]
            self.has(ty) ==> match self.obj(ty) {
                TypeObj::Array { elem, len } => self.has(elem),
                TypeObj::Vector { elem, len } => self.has(elem),
                TypeObj::Struct { fields } => forall|i: int|
                    0 <= i < fields@.len() ==> self.has(#[trigger] fields@[i]),
                TypeObj::MirPtr(p) => self.has(p.pointee),
                TypeObj::Integer { width } => true,
                TypeObj::Other => true,
            }
    }

    /// The LLVM type that `ty` converts to, or why there is none.
    pub open spec fn lowered(self, ty: TypeId) -> Result<TypeId, Seq<char>> {
        match self.types@[ty.0 as int].lowered {
            Ok(t) => Ok(t),
            Err(e) => Err(e@),
        }
    }

    /// `ty` as a MIR pointer, if it is one.
    pub open spec fn mir_ptr(self, ty: TypeId) -> Option<MirPtrType> {
        match self.obj(ty) {
            TypeObj::MirPtr(p) => Some(p),
            _ => None,
        }
    }

    /// Converts a MIR type to its LLVM type.
    pub fn convert_type(&self, ty: TypeId) -> (r: Result<TypeId, LowerError>)
        requires
            self.has(ty),
        ensures
            match self.lowered(ty) {
                Ok(t) => r == Ok::<TypeId, LowerError>(t),
                Err(e) => r matches Err(f) && f.cause() == LowerCause::TypeConversion(e),
            },
    {
        match &self.types[ty.0].lowered {
            Ok(t) => Ok(*t),
            Err(e) => Err(LowerFailure::TypeConversion(e.clone())),
        }
    }

    /// `ty` as a MIR pointer, if it is one.
    pub fn mir_ptr_type(&self, ty: TypeId) -> (r: Option<MirPtrType>)
        requires
            self.has(ty),
        ensures
            r == self.mir_ptr(ty),
    {
        match &self.types[ty.0].obj {
            TypeObj::MirPtr(p) => Some(*p),
            _ => None,
        }
    }
}

} // verus!
