//! Reading a scene out of the tree of a COLLADA document: geometry, skins,
//! the bone hierarchy, and the document as a whole.

pub mod document;
pub mod geometry;
pub mod hierarchy;
pub mod skin;
