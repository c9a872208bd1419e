//! What layout produces for one node.

use crate::geometry::{Point, Size};
use crate::number::Number;
use crate::scalar::Scalar;
use vstd::prelude::*;

verus! {

/// The size that a layout run found for a node.
#[derive(Clone, Copy, Debug, PartialEq, Eq, Structural)]
pub struct ComputeResult {
    pub size: Size<Scalar>,
}

/// The box of a node: its size, and its position relative to its parent.
#[derive(Clone, Copy, Debug, PartialEq, Eq, Structural)]
pub struct Layout {
    pub order: u32,
    pub size: Size<Scalar>,
    pub location: Point<Scalar>,
}

impl Layout {
    pub open spec fn spec_new() -> Layout {
        Layout { order: 0, size: Size::<Scalar>::zero(), location: Point::<Scalar>::zero() }
    }

    /// The empty box at the origin.
    #[verifier::when_used_as_spec(spec_new)]
    pub fn new() -> (r: Layout)
        ensures
            r == Self::spec_new(),
    {
        Layout { order: 0, size: Size::<Scalar>::zero(), location: Point::<Scalar>::zero() }
    }
}

/// A remembered result, with the inputs that it was found for.
#[derive(Clone, Copy, Debug, PartialEq, Eq, Structural)]
pub struct Cache {
    pub node_size: Size<Number>,
    pub parent_size: Size<Number>,
    pub perform_layout: bool,
    pub result: ComputeResult,
}

impl Cache {
    /// Whether the result has each definite size of the request that it was
    /// found for.
    pub open spec fn keeps_request(self) -> bool {
        &&& self.node_size.width matches Number::Defined(width) ==> self.result.size.width == width
        &&& self.node_size.height matches Number::Defined(height) ==> self.result.size.height == height
    }
}

} // verus!
