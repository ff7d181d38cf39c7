//! Rendering of a pre-computed line alignment between two revisions of a
//! text as unified-diff output: a file header, then one hunk at a time,
//! each hunk a header line followed by context and inserted lines.

pub mod align;
pub mod laws;
pub mod render;
pub mod split;
pub mod style;
