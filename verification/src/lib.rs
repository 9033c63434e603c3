//! Conversion core for COLLADA scenes: reading geometry, skinning and bone
//! hierarchies out of an XML tree, repairing meshes into a consistent indexed
//! form, and laying the result out for a binary model format, for glTF and
//! for COLLADA.
//!
//! Single-precision numbers are carried as their IEEE-754 bit patterns
//! ([`scalar::Scalar`]); arithmetic on them is left to the caller.

pub mod assemble;
pub mod bind_pose;
pub mod collada;
pub mod dialog;
pub mod error;
pub mod files;
pub mod gltf;
pub mod lists;
pub mod model;
pub mod normalize;
pub mod numbers;
pub mod read;
pub mod records;
pub mod scalar;
pub mod text;
pub mod transform;
pub mod validate;
pub mod xml;
