use vstd::prelude::*;

verus! {

/// An axis-aligned rectangle in device coordinates, the unit of the
/// region-mapping protocol between a filter stage and the owning graph.
#[derive(Clone, Copy, Debug, PartialEq, Eq, Structural)]
pub struct Rect {
    pub left: i32,
    pub top: i32,
    pub right: i32,
    pub bottom: i32,
}

} // verus!
