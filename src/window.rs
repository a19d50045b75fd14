use vstd::prelude::*;

verus! {

/// A window of the window system, known by its handle. Two references are to
/// the same window when their handles are equal.
#[derive(Debug, Clone, Copy, PartialEq, Eq, Structural, Default)]
pub struct Window(pub isize);

/// The axis along which windows are ordered for keyboard navigation.
#[derive(Debug, Clone, Copy, PartialEq, Eq, Structural)]
pub enum OrderingDirection {
    Horizontal,
    Vertical,
}

} // verus!
