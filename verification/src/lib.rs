//! Loader for a line-oriented scene-description format and a small OBJ-like
//! mesh format.
//!
//! The scene format is block structured: `start object ... end` blocks at the
//! top level, with `start vertex` / `start polygon` / `start group` sub-blocks
//! inside an object.  Parsing runs in two passes: the first pass builds the
//! objects and records every `parent` reference as a pending (child, name)
//! pair; the second pass resolves those names against the finished object
//! list and links the hierarchy, failing if a name cannot be found.
//!
//! Numeric vector fields (locations, scales, axis-angle rotations, vertex
//! positions) are kept as their validated decimal tokens; converting them to
//! machine floating point is left to the consumer, so that everything the
//! parser decides is stated and checked here over plain values.

pub mod error;
pub mod geometry;
pub mod num;
pub mod objmesh;
pub mod parse;
pub mod resolve;
pub mod scene;
pub mod text;
