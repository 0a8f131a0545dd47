use vstd::prelude::*;

verus! {

/// Seals `DisplayTableState`: only the states of this crate implement it.
pub trait DisplayTableStateGuard {

}

} // verus!
