//! Why an operation could not be lowered.

use crate::text::{is_malformed_account, quoted, str_debug};
use vstd::prelude::*;
use vstd::string::*;

verus! {

/// Whether the program or the IR is at fault.
#[derive(Clone, Copy, PartialEq, Eq, Structural, Debug)]
pub enum ErrorKind {
    /// The operation does not have the operands it must have.
    InvalidInput,
    /// The IR around the operation is inconsistent or incomplete.
    VerificationFailed,
}

/// The reasons for which lowering fails. `S` is the type of texts, and `R` that of the
/// account which the identifier check gave of itself.
#[derive(Debug)]
pub enum LowerFailure<S, R> {
    /// A store without exactly two operands.
    StoreOperands,
    /// A pointer offset without exactly two operands.
    PtrOffsetOperands,
    /// An alloca whose result is no MIR pointer.
    AllocaResultNotPointer,
    /// A type that has no LLVM counterpart.
    TypeConversion(S),
    /// A shared allocation without an element type.
    MissingElemType,
    /// A shared allocation whose element type is another kind of attribute.
    ElemTypeNotType,
    /// A shared allocation without a size.
    MissingSize,
    /// A shared allocation whose size is another kind of attribute.
    SizeNotInteger,
    /// A global allocation without a key.
    MissingGlobalKey,
    /// A global allocation whose key is another kind of attribute.
    GlobalKeyNotString,
    /// A global allocation without a type.
    MissingGlobalType,
    /// A global allocation whose type is another kind of attribute.
    GlobalTypeNotType,
    /// A global allocation whose result is no MIR pointer.
    GlobalResultNotPointer,
    /// A constant-memory key that cannot serve as a symbol name.
    InvalidConstantKey { key: S, reason: R },
    /// An operation that stands in no block.
    NoParentBlock,
    /// The module or function around the operation could not be found.
    Lookup(S),
    /// A module without a block.
    EmptyModule,
    /// Dynamic shared memory used outside an LLVM function.
    ParentNotFunction,
    /// A kernel for which no dynamic shared memory alignment was computed beforehand.
    AlignmentNotComputed { kernel: S },
}

/// A failure as lowering reports it.
pub type LowerError = LowerFailure<String, String>;

/// The cause of a failure: everything but the account of the identifier check, which can
/// hold a backtrace.
pub type LowerCause = LowerFailure<Seq<char>, ()>;

impl LowerFailure<String, String> {
    /// The cause of the failure.
    pub open spec fn cause(self) -> LowerCause {
        match self {
            LowerFailure::StoreOperands => LowerFailure::StoreOperands,
            LowerFailure::PtrOffsetOperands => LowerFailure::PtrOffsetOperands,
            LowerFailure::AllocaResultNotPointer => LowerFailure::AllocaResultNotPointer,
            LowerFailure::TypeConversion(e) => LowerFailure::TypeConversion(e@),
            LowerFailure::MissingElemType => LowerFailure::MissingElemType,
            LowerFailure::ElemTypeNotType => LowerFailure::ElemTypeNotType,
            LowerFailure::MissingSize => LowerFailure::MissingSize,
            LowerFailure::SizeNotInteger => LowerFailure::SizeNotInteger,
            LowerFailure::MissingGlobalKey => LowerFailure::MissingGlobalKey,
            LowerFailure::GlobalKeyNotString => LowerFailure::GlobalKeyNotString,
            LowerFailure::MissingGlobalType => LowerFailure::MissingGlobalType,
            LowerFailure::GlobalTypeNotType => LowerFailure::GlobalTypeNotType,
            LowerFailure::GlobalResultNotPointer => LowerFailure::GlobalResultNotPointer,
            LowerFailure::InvalidConstantKey { key, reason } => LowerFailure::InvalidConstantKey {
                key: key@,
                reason: (),
            },
            LowerFailure::NoParentBlock => LowerFailure::NoParentBlock,
            LowerFailure::Lookup(e) => LowerFailure::Lookup(e@),
            LowerFailure::EmptyModule => LowerFailure::EmptyModule,
            LowerFailure::ParentNotFunction => LowerFailure::ParentNotFunction,
            LowerFailure::AlignmentNotComputed { kernel } => LowerFailure::AlignmentNotComputed {
                kernel: kernel@,
            },
        }
    }

    /// Whether the failure, if it is that of a constant-memory key, comes with the account
    /// that the identifier check gives of that key.
    pub open spec fn is_accounted_for(self) -> bool {
        self matches LowerFailure::InvalidConstantKey { key, reason } ==> is_malformed_account(
            reason@,
            key@,
        )
    }
}

/// The message for a constant-memory key that is no identifier; `quoted_key` is the key
/// in quotes.
pub open spec fn invalid_key_text(quoted_key: Seq<char>, reason: Seq<char>) -> Seq<char> {
    "constant global_key "@ + quoted_key + " is not a valid identifier: "@ + reason
}

/// The message for a kernel whose dynamic shared memory alignment is unknown.
pub open spec fn alignment_not_computed_text(kernel: Seq<char>) -> Seq<char> {
    "Internal error: dynamic shared memory alignment not pre-computed for kernel '"@ + kernel
        + "'. This should have been done in compute_max_dynamic_smem_alignment."@
}

impl LowerFailure<String, String> {
    /// The kind of each failure: wrong operand counts are the program's fault, the rest
    /// the IR's.
    pub open spec fn kind_spec(self) -> ErrorKind {
        if self is StoreOperands || self is PtrOffsetOperands {
            ErrorKind::InvalidInput
        } else {
            ErrorKind::VerificationFailed
        }
    }

    /// The message of each failure.
    pub open spec fn message_text(self) -> Seq<char> {
        match self {
            LowerFailure::StoreOperands => "Store operation requires exactly 2 operands"@,
            LowerFailure::PtrOffsetOperands => "PtrOffset requires exactly 2 operands"@,
            LowerFailure::AllocaResultNotPointer =>
                "MirAllocaOp result must be MirPtrType (enforced by verifier)"@,
            LowerFailure::TypeConversion(e) => e@,
            LowerFailure::MissingElemType => "MirSharedAllocOp missing elem_type attribute"@,
            LowerFailure::ElemTypeNotType => "elem_type is not a TypeAttr"@,
            LowerFailure::MissingSize => "MirSharedAllocOp missing size attribute"@,
            LowerFailure::SizeNotInteger => "size is not an IntegerAttr"@,
            LowerFailure::MissingGlobalKey => "MirGlobalAllocOp missing global_key attribute"@,
            LowerFailure::GlobalKeyNotString => "global_key is not a StringAttr"@,
            LowerFailure::MissingGlobalType => "MirGlobalAllocOp missing global_type attribute"@,
            LowerFailure::GlobalTypeNotType => "global_type is not a TypeAttr"@,
            LowerFailure::GlobalResultNotPointer =>
                "MirGlobalAllocOp result is not a MirPtrType"@,
            LowerFailure::InvalidConstantKey { key, reason } => invalid_key_text(
                str_debug(key@),
                reason@,
            ),
            LowerFailure::NoParentBlock => "Op has no parent block"@,
            LowerFailure::Lookup(e) => e@,
            LowerFailure::EmptyModule => "Module is empty"@,
            LowerFailure::ParentNotFunction => "Parent op is not an llvm.func"@,
            LowerFailure::AlignmentNotComputed { kernel } => alignment_not_computed_text(kernel@),
        }
    }

    /// Whether the program or the IR is at fault.
    pub fn kind(&self) -> (r: ErrorKind)
        ensures
            r == self.kind_spec(),
    {
        match self {
            LowerFailure::StoreOperands => ErrorKind::InvalidInput,
            LowerFailure::PtrOffsetOperands => ErrorKind::InvalidInput,
            _ => ErrorKind::VerificationFailed,
        }
    }

    /// The failure in words.
    pub fn message(&self) -> (r: String)
        ensures
            r@ == self.message_text(),
    {
        match self {
            LowerFailure::StoreOperands => "Store operation requires exactly 2 operands".to_owned(),
            LowerFailure::PtrOffsetOperands => "PtrOffset requires exactly 2 operands".to_owned(),
            LowerFailure::AllocaResultNotPointer =>
                "MirAllocaOp result must be MirPtrType (enforced by verifier)".to_owned(),
            LowerFailure::TypeConversion(e) => e.clone(),
            LowerFailure::MissingElemType =>
                "MirSharedAllocOp missing elem_type attribute".to_owned(),
            LowerFailure::ElemTypeNotType => "elem_type is not a TypeAttr".to_owned(),
            LowerFailure::MissingSize => "MirSharedAllocOp missing size attribute".to_owned(),
            LowerFailure::SizeNotInteger => "size is not an IntegerAttr".to_owned(),
            LowerFailure::MissingGlobalKey =>
                "MirGlobalAllocOp missing global_key attribute".to_owned(),
            LowerFailure::GlobalKeyNotString => "global_key is not a StringAttr".to_owned(),
            LowerFailure::MissingGlobalType =>
                "MirGlobalAllocOp missing global_type attribute".to_owned(),
            LowerFailure::GlobalTypeNotType => "global_type is not a TypeAttr".to_owned(),
            LowerFailure::GlobalResultNotPointer =>
                "MirGlobalAllocOp result is not a MirPtrType".to_owned(),
            LowerFailure::InvalidConstantKey { key, reason } => invalid_key_message(
                quoted(key.as_str()).as_str(),
                reason.as_str(),
            ),
            LowerFailure::NoParentBlock => "Op has no parent block".to_owned(),
            LowerFailure::Lookup(e) => e.clone(),
            LowerFailure::EmptyModule => "Module is empty".to_owned(),
            LowerFailure::ParentNotFunction => "Parent op is not an llvm.func".to_owned(),
            LowerFailure::AlignmentNotComputed { kernel } =>
                "Internal error: dynamic shared memory alignment not pre-computed for kernel '"
                .to_owned().concat(kernel.as_str()).concat(
                "'. This should have been done in compute_max_dynamic_smem_alignment.",
            ),
        }
    }
}

/// The message for a constant-memory key that is no identifier, from the key in quotes
/// and the account of the identifier check.
pub fn invalid_key_message(quoted_key: &str, reason: &str) -> (r: String)
    ensures
        r@ == invalid_key_text(quoted_key@, reason@),
{
    "constant global_key ".to_owned().concat(quoted_key).concat(
        " is not a valid identifier: ",
    ).concat(reason)
}

} // verus!
