//! A small vector-graphics authoring library built on exact rational
//! arithmetic: scenes of geometric primitives (areas, circles, lines, labels)
//! are placed in nested coordinate frames and serialized to SVG markup.
//!
//! The coordinate-transform core (vectors, affine matrices, frame
//! composition) is verified; every operation either returns the exact
//! mathematical result or reports a numeric error, never a silently wrong
//! value.

pub use color::Color;
pub use coordinate::Coordinate;
pub use graphic::{Area, Circle};
pub use svg::Document;
pub use text::Label;

pub mod color;
pub mod coordinate;
pub mod dir;
pub mod error;
pub mod fmt;
pub mod graphic;
pub mod matrix2;
pub mod matrix3;
pub mod rat;
pub mod xml;
pub mod svg;
pub mod text;
pub mod tree;
pub mod vector2;
pub mod vector3;
