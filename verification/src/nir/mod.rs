pub mod exprs;
pub mod types;

use crate::display_table::DisplayIdx;
use crate::span::Span;
use vstd::prelude::*;

verus! {

/// A name in the NIR: where it was written and its entry in the display table.
#[derive(Debug, Clone, Copy, PartialEq, Eq, Structural)]
pub struct NIRId {
    pub span: Span,
    pub id: DisplayIdx,
}

#[derive(Debug, Clone, Copy, PartialEq, Eq, Structural)]
pub enum VisModifier {
    Default,
    Public,
    Private,
}

/// A structure without fields.
#[derive(Debug, Clone, Copy, PartialEq, Eq, Structural)]
pub struct UnitStruct {
    pub vis: VisModifier,
    pub name: NIRId,
}

} // verus!
