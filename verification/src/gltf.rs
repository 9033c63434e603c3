//! The glTF assembler: it lays mesh objects out in one byte buffer and
//! describes them as meshes, and builds the graph of nodes and the skin.

pub mod buffer;
pub mod document;
pub mod layout;
pub mod mesh;
pub mod nodes;
pub mod skin;
