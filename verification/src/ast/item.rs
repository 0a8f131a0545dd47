use vstd::prelude::*;

verus! {

/// An item of a file: its kind (in the two high bits), its visibility (in the two bits
/// below) and its index among the items of its kind (in the other bits), packed in one `u64`.
#[derive(Clone, Copy, Debug, PartialEq, Eq, Structural)]
pub struct Item(u64);

pub open spec fn item_kind_mask() -> u64 {
    0b11u64 << 62u64
}

pub open spec fn item_vis_mask() -> u64 {
    0b11u64 << 60u64
}

pub open spec fn item_index_mask() -> u64 {
    !((0b11u64 << 62u64) | (0b11u64 << 60u64))
}

impl Item {
    pub const KIND_BITS: u64 = 2;
    pub const KIND_SHIFT: u64 = 62;
    pub const KIND_MASK: u64 = 0b11 << 62;
    pub const VIS_BITS: u64 = 2;
    pub const VIS_SHIFT: u64 = 60;
    pub const VIS_MASK: u64 = 0b11 << 60;
    pub const INDEX_MASK: u64 = !((0b11u64 << 62) | (0b11u64 << 60));

    // Possible kinds
    /// 0b_00000000_00000000_00000000_00000000_00000000_00000000_00000000_00000000
    pub const UNIT_STRUCT: u64 = 0 << 62;
    /// 0b_01000000_00000000_00000000_00000000_00000000_00000000_00000000_00000000
    pub const TUPLE_STRUCT: u64 = 1 << 62;
    /// 0b_10000000_00000000_00000000_00000000_00000000_00000000_00000000_00000000
    pub const FIELDS_STRUCT: u64 = 2 << 62;
    /// 0b_11000000_00000000_00000000_00000000_00000000_00000000_00000000_00000000
    pub const FN: u64 = 3 << 62;

    // Possible visibilties
    /// 0b_00000000_00000000_00000000_00000000_00000000_00000000_00000000_00000000
    pub const DEFAULT: u64 = 0 << 60;
    /// 0b_00010000_00000000_00000000_00000000_00000000_00000000_00000000_00000000
    pub const PRIVATE: u64 = 1 << 60;
    /// 0b_00100000_00000000_00000000_00000000_00000000_00000000_00000000_00000000
    pub const PUBLIC: u64 = 2 << 60;

    /// The packed integer.
    pub closed spec fn bits(self) -> u64 {
        self.0
    }

    /// Creates a new encoded value for a given kind, visibility and index.
    pub fn new(kind: u64, visibility: u64, index: usize) -> (r: Self)
        ensures
            r.bits() == kind | visibility | (index as u64),
    {
        Self(kind | visibility | index as u64)
    }

    /// Decodes the kind of the item.
    pub fn kind(self) -> (r: u64)
        ensures
            r == self.bits() & item_kind_mask(),
    {
        self.0 & Self::KIND_MASK
    }

    /// Decodes the visibility of the item.
    pub fn visibility(self) -> (r: u64)
        ensures
            r == self.bits() & item_vis_mask(),
    {
        self.0 & Self::VIS_MASK
    }

    /// Decodes the index of the item.
    pub fn index(self) -> (r: usize)
        ensures
            r == (self.bits() & item_index_mask()) as usize,
    {
        (self.0 & Self::INDEX_MASK) as usize
    }
}

/// Packing a kind, a visibility and an index and then decoding gives each back, when each
/// lies within its own bits.
pub proof fn lemma_item_roundtrip(kind: u64, vis: u64, index: u64)
    requires
        kind & !item_kind_mask() == 0,
        vis & !item_vis_mask() == 0,
        index & !item_index_mask() == 0,
    ensures
        (kind | vis | index) & item_kind_mask() == kind,
        (kind | vis | index) & item_vis_mask() == vis,
        (kind | vis | index) & item_index_mask() == index,
{
    assert((kind | vis | index) & (0b11u64 << 62u64) == kind && (kind | vis | index) & (0b11u64
        << 60u64) == vis && (kind | vis | index) & !((0b11u64 << 62u64) | (0b11u64 << 60u64))
        == index) by (bit_vector)
        requires
            kind & !(0b11u64 << 62u64) == 0,
            vis & !(0b11u64 << 60u64) == 0,
            index & !(!((0b11u64 << 62u64) | (0b11u64 << 60u64))) == 0,
    ;
}

} // verus!
