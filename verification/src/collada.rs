//! The COLLADA assembler: it turns a mesh file and a skeleton into the tree
//! of a COLLADA document, with geometry, skins and the bones as nodes.

pub mod controller;
pub mod document;
pub mod geometry;
pub mod ids;
pub mod read_back;
pub mod scene;
pub mod sources;
