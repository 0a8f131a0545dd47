use super::exprs::Expr;
use crate::display_table::DisplayIdx;
use crate::span::Span;
use vstd::prelude::*;

verus! {

/// An item of a package: the package's index and the item's name.
#[derive(Debug, Clone, Copy, PartialEq, Eq, Structural)]
pub struct ItemInPkg {
    pub pkg_idx: usize,
    pub id: DisplayIdx,
}

/// The types of the NIR, each kind in its own list; a type's index is its place in the list
/// of its kind.
pub struct Types {
    pub paths: Vec<ItemInPkg>,
    pub ptrs: Vec<Type>,
    pub refs: Vec<Type>,
    pub ptrs_mut: Vec<Type>,
    pub refs_mut: Vec<Type>,
    pub slices: Vec<Type>,
    pub tuples: Vec<TupleType>,
    pub arrays: Vec<ArrayType>,
    pub lambdas: Vec<LambdaType>,
}

impl Default for Types {
    /// No types yet.
    fn default() -> (r: Self)
        ensures
            r.paths@.len() == 0,
            r.ptrs@.len() == 0,
            r.refs@.len() == 0,
            r.ptrs_mut@.len() == 0,
            r.refs_mut@.len() == 0,
            r.slices@.len() == 0,
            r.tuples@.len() == 0,
            r.arrays@.len() == 0,
            r.lambdas@.len() == 0,
    {
        let paths = Vec::new();
        Self {
            paths,
            ptrs: Vec::new(),
            refs: Vec::new(),
            ptrs_mut: Vec::new(),
            refs_mut: Vec::new(),
            slices: Vec::new(),
            tuples: Vec::new(),
            arrays: Vec::new(),
            lambdas: Vec::new(),
        }
    }
}

pub struct TupleType {
    pub types: Vec<Type>,
    pub parens_span: Span,
}

pub struct ArrayType {
    pub typ: Type,
    pub size: Expr,
}

pub struct LambdaType {
    pub params: Vec<Type>,
    pub return_type: Type,
}

/// A type of the NIR: its kind and index, packed in one integer, and where it was written.
pub struct Type {
    pub kind_and_idx: TypeKindAndIndex,
    pub span: Span,
}

/// A type's kind (in the high bits) and its index among the types of that kind (in the
/// low bits), packed in one `u64`.
#[derive(Clone, Copy, Debug, PartialEq, Eq, Structural)]
pub struct TypeKindAndIndex(u64);

pub open spec fn type_kind_mask() -> u64 {
    0b1111u64 << 60u64
}

pub open spec fn type_index_mask() -> u64 {
    !(0b1111u64 << 60u64)
}

impl TypeKindAndIndex {
    const KIND_BITS: u64 = 4;
    const KIND_SHIFT: u64 = 60;
    const KIND_MASK: u64 = 0b1111 << 60;
    const INDEX_MASK: u64 = !(0b1111u64 << 60);

    // Possible kinds
    pub const PATH: u64 = 0 << 60;
    pub const PTR: u64 = 1 << 60;
    pub const REF: u64 = 2 << 60;
    pub const PTR_MUT: u64 = 3 << 60;
    pub const REF_MUT: u64 = 4 << 60;
    pub const SLICE: u64 = 5 << 60;
    pub const TUPLE: u64 = 6 << 60;
    pub const ARRAY: u64 = 7 << 60;
    pub const LAMBDA: u64 = 8 << 60;

    /// The packed integer.
    pub closed spec fn bits(self) -> u64 {
        self.0
    }

    /// Creates a new encoded value for a given kind and index.
    pub fn new(kind: u64, index: usize) -> (r: Self)
        ensures
            r.bits() == kind | (index as u64),
    {
        Self(kind | index as u64)
    }

    /// Decodes the kind of the type: the bits of the kind mask.
    pub fn kind(self) -> (r: u64)
        ensures
            r == self.bits() & type_kind_mask(),
    {
        self.0 & Self::KIND_MASK
    }

    /// Decodes the index of the type: the bits outside the kind mask.
    pub fn index(self) -> (r: usize)
        ensures
            r == (self.bits() & type_index_mask()) as usize,
    {
        (self.0 & Self::INDEX_MASK) as usize
    }
}

/// The nine kinds of types.
pub open spec fn is_type_kind(kind: u64) -> bool {
    kind == TypeKindAndIndex::PATH || kind == TypeKindAndIndex::PTR || kind == TypeKindAndIndex::REF
        || kind == TypeKindAndIndex::PTR_MUT || kind == TypeKindAndIndex::REF_MUT || kind
        == TypeKindAndIndex::SLICE || kind == TypeKindAndIndex::TUPLE || kind
        == TypeKindAndIndex::ARRAY || kind == TypeKindAndIndex::LAMBDA
}

/// Packing any of the nine kinds with an index below `1 << 60` and then decoding gives the
/// kind and the index back.
pub proof fn lemma_type_kind_and_index_roundtrip(kind: u64, index: u64)
    requires
        is_type_kind(kind),
        index < 1u64 << 60u64,
    ensures
        (kind | index) & type_kind_mask() == kind,
        (kind | index) & type_index_mask() == index,
{
    let k: u64 = kind >> 60u64;
    assert(k < 9 && kind == k << 60u64) by (bit_vector)
        requires
            kind == 0u64 << 60u64 || kind == 1u64 << 60u64 || kind == 2u64 << 60u64 || kind == 3u64
                << 60u64 || kind == 4u64 << 60u64 || kind == 5u64 << 60u64 || kind == 6u64
                << 60u64 || kind == 7u64 << 60u64 || kind == 8u64 << 60u64,
            k == kind >> 60u64,
    ;
    assert(((k << 60u64) | index) & (0b1111u64 << 60u64) == (k << 60u64) && ((k << 60u64)
        | index) & !(0b1111u64 << 60u64) == index) by (bit_vector)
        requires
            k < 9,
            index < 1u64 << 60u64,
    ;
}

} // verus!
