//! Exact geometry engine for assembling a patch of 13-edge aperiodic
//! prototiles.
//!
//! Tiles come in two mirror-image variants and are placed one at a time,
//! attaching to the exposed boundary of the patch built so far. The engine
//! computes a tile's vertices and edges under rotation and translation,
//! decides when two edges from different tiles are the same seam, maintains
//! the set of exposed boundary edges as tiles are added or removed, and snaps
//! a newly requested tile onto that boundary within a tolerance.
//!
//! All positions live in the ring of numbers `(a + b*sqrt(3)) / 16` with
//! integer `a` and `b`, which is closed under every operation the engine
//! performs, so the whole computation is exact integer arithmetic: no
//! floating point, no rounding, and seams either coincide exactly or do not.
//! Rendering (scaling the exact coordinates to screen space) is left to the
//! caller.

pub mod ammann;
pub mod coord;
pub mod patch;
pub mod snap;
pub mod tile;
