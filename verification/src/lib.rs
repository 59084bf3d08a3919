//! A verified bridge from a small declarative UI markup dialect to the input
//! of a flex-box layout engine and back to a positioned widget tree.
//!
//! The crate parses dimension and color literals, reads typed attributes,
//! assembles style records, compiles markup node trees into typed element
//! trees, converts element trees into layout-engine input of identical shape,
//! and plans the widget materialization walk over the computed geometry.

pub mod attrs;
pub mod color;
pub mod dimension;
pub mod elem;
pub mod errors;
pub mod layout_tree;
pub mod markup;
pub mod render;
pub mod scalar;
pub mod style;
pub mod text;
pub mod tokenize;
