//! A flexbox layout engine over fixed-point layout units.
//!
//! A forest of styled nodes is laid out by the flexible box algorithm: every
//! node receives a size and a position relative to its parent. All lengths are
//! [`scalar::Scalar`] values, a decimal fixed-point number with saturating
//! arithmetic, so that every result is an exact function of the inputs.
//!
//! The parts, from the leaves up:
//!
//! - [`scalar`], [`number`], [`geometry`], [`style`], [`result`]: the values
//!   that styles and layouts are made of.
//! - [`forest`]: the arena of nodes and its invariant; [`mutate`], [`links`]
//!   and [`removal`]: what changes it; [`subtree`]: how its subtrees lie to
//!   each other.
//! - [`flex`]: the formulas of the algorithm, on plain values.
//! - [`model`]: what a layout computes, as a function of the tree and of the
//!   state that the forest keeps for each node.
//! - [`passes`], [`algo`], [`place`], [`compute`]: the layout itself, each
//!   function with the function of the model that it computes.
//! - [`rounds`], [`rounding`], [`relayout`], [`bounds`]: what holds of the
//!   results.

pub mod algo;
pub mod bounds;
pub mod compute;
pub mod flex;
pub mod forest;
pub mod geometry;
pub mod links;
pub mod model;
pub mod mutate;
pub mod number;
pub mod passes;
pub mod place;
pub mod relayout;
pub mod removal;
pub mod result;
pub mod rounding;
pub mod rounds;
pub mod scalar;
pub mod style;
pub mod subtree;
