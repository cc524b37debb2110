use vstd::prelude::*;

verus! {

/// An integer pixel coordinate. A value type, copied freely.
#[derive(Clone, Copy, PartialEq, Eq, Structural, Debug)]
pub struct Point {
    pub x: i16,
    pub y: i16,
}

} // verus!
