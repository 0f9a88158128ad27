//! Geometry and motion core of a folding paper plane: a compact index set,
//! an indexed mesh with merging and vertex maps, folds and crease lines, the
//! sheet's triangulation, the cubic Bezier construction, smoothing, and path
//! sampling.
//!
//! Coordinates and their arithmetic are type parameters and functions handed
//! in by the caller. What is proved here is the structure around them: which
//! vertex moves and which stays, where each index points after a merge, how
//! many samples a path yields and in which order.

pub mod bezier;
pub mod bit_set;
pub mod fold;
pub mod model;
pub mod path;
pub mod sheet;
pub mod smooth;
pub mod transform;

pub use bit_set::{BitSet, BitSetIterator};
pub use bezier::Bezier;
pub use fold::Fold;
pub use model::Model;
pub use path::Path;
pub use smooth::{smooth, smooth_passes};
pub use transform::{AddLines, Stay};
