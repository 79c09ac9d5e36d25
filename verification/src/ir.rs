//! The operations that lowering reads, and the rewrites that it answers with.

use crate::error::{LowerError, LowerCause};
use crate::types::{MirPtrType, TypeId};
use vstd::prelude::*;

verus! {

/// The number of an SSA value that exists before the rewrite.
pub type ValueId = usize;

/// The number of a basic block.
pub type BlockId = usize;

/// An operand of an operation that is about to be lowered. Its definition has been
/// lowered already, so `ty` is an LLVM type; `mir_pointer` is the most recent MIR pointer
/// type that the value had, if it had one.
#[derive(Clone, Copy, PartialEq, Eq, Structural, Debug)]
pub struct Operand {
    pub id: ValueId,
    pub ty: TypeId,
    pub mir_pointer: Option<MirPtrType>,
}

/// An operation that is about to be lowered.
#[derive(Debug)]
pub struct Operation {
    pub operands: Vec<Operand>,
    pub result_types: Vec<TypeId>,
}

/// An attribute of an operation.
#[derive(Debug)]
pub enum Attribute {
    Type(TypeId),
    /// An integer, as an unsigned number of 64 bits.
    Integer(u64),
    Str(String),
    Other,
}

/// What surrounds the block of an operation: the first block of its module, and the
/// symbol of its function. A module may have no block, the enclosing operation need not
/// be an LLVM function, and either may not be found at all.
#[derive(Debug)]
pub struct BlockSite {
    pub module_block: Result<Option<BlockId>, String>,
    pub function: Result<Option<String>, String>,
}

/// Where an operation stands; `None` if it stands in no block.
#[derive(Debug)]
pub struct OpSite {
    pub parent_block: Option<BlockSite>,
}

/// `mir.shared_alloc`: static shared memory for `size` elements.
#[derive(Debug)]
pub struct MirSharedAllocOp {
    pub alloc_key: Option<String>,
    pub elem_type: Option<Attribute>,
    pub size: Option<Attribute>,
    pub alignment: Option<u64>,
    pub site: OpSite,
}

/// `mir.global_alloc`: a `static` of the program.
#[derive(Debug)]
pub struct MirGlobalAllocOp {
    pub global_key: Option<Attribute>,
    pub global_type: Option<Attribute>,
    pub alignment: Option<u64>,
    pub result_type: Option<TypeId>,
    pub site: OpSite,
}

/// `mir.extern_shared`: a pointer into the dynamic shared memory of the kernel.
#[derive(Debug)]
pub struct MirExternSharedOp {
    pub byte_offset: u64,
    pub alignment: u64,
    pub site: OpSite,
}

/// An SSA value in a rewrite: one that was there before, or the result of the operation
/// at a position in the rewrite.
#[derive(Clone, Copy, PartialEq, Eq, Structural, Debug)]
pub enum Value {
    Existing(ValueId),
    ResultOf(usize),
}

/// An LLVM type in a rewrite. `Handle` is a type of the program.
#[derive(PartialEq, Eq, Debug)]
pub enum LlvmType {
    Handle(TypeId),
    Integer(u32),
    Float32,
    Array { elem: Box<LlvmType>, len: u64 },
}

/// An LLVM operation. `S` is the type of texts.
#[derive(PartialEq, Eq, Debug)]
pub enum Inst<S> {
    /// An integer constant of `width` bits.
    Constant { width: u32, number: u64 },
    /// A stack slot for `count` elements.
    Alloca { elem_type: LlvmType, count: Value },
    Store { value: Value, address: Value },
    Load { address: Value, result_type: LlvmType },
    /// The address `index` elements past `base`.
    GetElementPtr { base: Value, index: Value, elem_type: LlvmType },
    /// The address of a global.
    AddressOf { symbol: S, address_space: u32 },
    /// Inline assembly that yields an unnamed struct of `lanes` fields of type `lane_type`.
    InlineAsm {
        lane_type: LlvmType,
        lanes: u32,
        operand: Value,
        template: S,
        constraints: S,
        convergent: bool,
    },
    /// The field `field` of an aggregate.
    ExtractValue { aggregate: Value, field: u32 },
}

/// A global variable, to be put at the front of `block`. `S` is the type of texts.
#[derive(PartialEq, Eq, Debug)]
pub struct GlobalVar<S> {
    pub symbol: S,
    pub ty: LlvmType,
    pub alignment: Option<u64>,
    pub address_space: u32,
    /// Declared elsewhere: the variable has no initializer.
    pub external: bool,
    pub block: BlockId,
}

/// What becomes of the lowered operation. `V` is the type of lists of values.
#[derive(PartialEq, Eq, Debug)]
pub enum Replacement<V> {
    /// It had no results and is removed.
    Erase,
    /// The operation at this position of the rewrite takes its place.
    Op(usize),
    /// These values take the place of its results.
    Values(V),
}

/// How one operation is lowered: at most one new global, then the operations to insert
/// before it, in order, then what becomes of it.
#[derive(PartialEq, Eq, Debug)]
pub struct Rewrite {
    pub global: Option<GlobalVar<String>>,
    pub ops: Vec<Inst<String>>,
    pub replacement: Replacement<Vec<Value>>,
}

/// A rewrite as contracts speak of it.
#[verifier::ext_equal]
pub struct RewriteView {
    pub global: Option<GlobalVar<Seq<char>>>,
    pub ops: Seq<Inst<Seq<char>>>,
    pub replacement: Replacement<Seq<Value>>,
}

impl View for Inst<String> {
    type V = Inst<Seq<char>>;

    open spec fn view(&self) -> Inst<Seq<char>> {
        match *self {
            Inst::Constant { width, number } => Inst::Constant { width, number },
            Inst::Alloca { elem_type, count } => Inst::Alloca { elem_type, count },
            Inst::Store { value, address } => Inst::Store { value, address },
            Inst::Load { address, result_type } => Inst::Load { address, result_type },
            Inst::GetElementPtr { base, index, elem_type } => Inst::GetElementPtr {
                base,
                index,
                elem_type,
            },
            Inst::AddressOf { symbol, address_space } => Inst::AddressOf {
                symbol: symbol@,
                address_space,
            },
            Inst::InlineAsm { lane_type, lanes, operand, template, constraints, convergent } =>
                Inst::InlineAsm {
                lane_type,
                lanes,
                operand,
                template: template@,
                constraints: constraints@,
                convergent,
            },
            Inst::ExtractValue { aggregate, field } => Inst::ExtractValue { aggregate, field },
        }
    }
}

impl View for GlobalVar<String> {
    type V = GlobalVar<Seq<char>>;

    open spec fn view(&self) -> GlobalVar<Seq<char>> {
        GlobalVar {
            symbol: self.symbol@,
            ty: self.ty,
            alignment: self.alignment,
            address_space: self.address_space,
            external: self.external,
            block: self.block,
        }
    }
}

impl View for Rewrite {
    type V = RewriteView;

    open spec fn view(&self) -> RewriteView {
        RewriteView {
            global: match self.global {
                Some(g) => Some(g@),
                None => None,
            },
            ops: self.ops@.map_values(|op: Inst<String>| op@),
            replacement: match self.replacement {
                Replacement::Erase => Replacement::Erase,
                Replacement::Op(i) => Replacement::Op(i),
                Replacement::Values(vs) => Replacement::Values(vs@),
            },
        }
    }
}

/// The outcome of lowering one operation, as contracts speak of it.
pub open spec fn outcome(r: Result<Rewrite, LowerError>) -> Result<RewriteView, LowerCause> {
    match r {
        Ok(rewrite) => Ok(rewrite@),
        Err(e) => Err(e.cause()),
    }
}

impl<S> Inst<S> {
    /// The values that the operation uses.
    pub open spec fn uses(self) -> Set<Value> {
        match self {
            Inst::Constant { .. } => Set::empty(),
            Inst::Alloca { count, .. } => set![count],
            Inst::Store { value, address } => set![value, address],
            Inst::Load { address, .. } => set![address],
            Inst::GetElementPtr { base, index, .. } => set![base, index],
            Inst::AddressOf { .. } => Set::empty(),
            Inst::InlineAsm { operand, .. } => set![operand],
            Inst::ExtractValue { aggregate, .. } => set![aggregate],
        }
    }

    /// Whether the operation has a result. Only a store has none.
    pub open spec fn has_result(self) -> bool {
        !(self is Store)
    }
}

impl RewriteView {
    /// Whether `v` exists before the operation at position `at`.
    pub open spec fn defined(self, v: Value, at: int) -> bool {
        match v {
            Value::Existing(_) => true,
            Value::ResultOf(j) => j < at && j < self.ops.len() && self.ops[j as int].has_result(),
        }
    }

    /// Every operation uses only values that exist before it, and so does the
    /// replacement.
    pub open spec fn wf(self) -> bool {
        &&& forall|i: int, v: Value|
            0 <= i < self.ops.len() && #[trigger] self.ops[i].uses().contains(v)
                ==> self.defined(v, i)
        &&& match self.replacement {
            Replacement::Erase => true,
            Replacement::Op(i) => self.defined(Value::ResultOf(i), self.ops.len() as int),
            Replacement::Values(vs) => forall|k: int|
                0 <= k < vs.len() ==> self.defined(#[trigger] vs[k], self.ops.len() as int),
        }
    }

    /// How many values take the place of the lowered operation's results.
    pub open spec fn result_count(self) -> nat {
        match self.replacement {
            Replacement::Erase => 0,
            Replacement::Op(_) => 1,
            Replacement::Values(vs) => vs.len(),
        }
    }
}

} // verus!
