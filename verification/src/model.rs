//! The scene as it is read from a document: meshes, materials, bones.

use vstd::prelude::*;
use crate::scalar::{one_bits, zero_bits, Scalar};

verus! {

/// A point or direction: x, y, z.
pub type Vec3 = [Scalar; 3];

/// A texture coordinate: u, v.
pub type Vec2 = [Scalar; 2];

/// A colour: red, green, blue, alpha.
pub type Color = [Scalar; 4];

/// A 4×4 matrix as four columns of four numbers.
pub type Mat4 = [[Scalar; 4]; 4];

/// Which axis of the source points up, and so whether vectors are turned.
#[derive(Clone, Copy, Debug, PartialEq, Eq, Structural)]
pub enum UpAxisConversion {
    YUp,
    ZUp,
    NoConversion,
}

/// How a scene is converted and where the result goes.
#[derive(Debug, PartialEq, Eq)]
pub struct DaeConvertConfig {
    pub output_directory: String,
    pub base_filename: String,
    pub scale_factor: Scalar,
    pub up_axis_conversion: UpAxisConversion,
}

impl Clone for DaeConvertConfig {
    fn clone(&self) -> (r: Self)
        ensures
            r.output_directory@ == self.output_directory@,
            r.base_filename@ == self.base_filename@,
            r.scale_factor == self.scale_factor,
            r.up_axis_conversion == self.up_axis_conversion,
    {
        DaeConvertConfig {
            output_directory: self.output_directory.clone(),
            base_filename: self.base_filename.clone(),
            scale_factor: self.scale_factor,
            up_axis_conversion: self.up_axis_conversion,
        }
    }
}

impl Default for DaeConvertConfig {
    fn default() -> (r: Self)
        ensures
            r.output_directory@ == Seq::<char>::empty(),
            r.base_filename@ == "model"@,
            r.scale_factor.bits == one_bits(),
            r.up_axis_conversion == UpAxisConversion::YUp,
    {
        DaeConvertConfig {
            output_directory: String::new(),
            base_filename: "model".to_owned(),
            scale_factor: Scalar::one(),
            up_axis_conversion: UpAxisConversion::YUp,
        }
    }
}

/// One vertex bound to a bone with a weight.
#[derive(Clone, Copy, Debug, PartialEq, Eq, Structural)]
pub struct DaeVertexWeight {
    pub vertex_index: u32,
    pub weight: Scalar,
}

/// The vertices that one bone moves.
#[derive(Clone, Debug, PartialEq, Eq)]
pub struct DaeBoneInfluence {
    pub bone_name: String,
    pub vertex_weights: Vec<DaeVertexWeight>,
}

/// An indexed triangle mesh.
#[derive(Clone, Debug, PartialEq, Eq)]
pub struct DaeMesh {
    pub name: String,
    pub vertices: Vec<Vec3>,
    pub normals: Vec<Vec3>,
    pub uvs: Vec<Vec2>,
    pub indices: Vec<u32>,
    pub material_name: Option<String>,
    pub bone_influences: Vec<DaeBoneInfluence>,
}

/// A bone: its parent by position in the bone list, its local transform.
#[derive(Clone, Debug, PartialEq, Eq)]
pub struct DaeBone {
    pub name: String,
    pub parent_index: Option<usize>,
    pub transform: Mat4,
    pub inverse_bind_matrix: Option<Mat4>,
}

/// A material by name, with stand-in colours.
#[derive(Clone, Debug, PartialEq, Eq)]
pub struct DaeMaterial {
    pub name: String,
    pub diffuse_color: Color,
    pub specular_color: Color,
    pub emission_color: Color,
    pub texture_paths: Vec<(String, String)>,
}

/// All that a document yields.
#[derive(Clone, Debug, PartialEq, Eq)]
pub struct DaeScene {
    pub meshes: Vec<DaeMesh>,
    pub materials: Vec<DaeMaterial>,
    pub bones: Vec<DaeBone>,
    pub up_axis: UpAxisConversion,
}

/// The files that a conversion produced, by kind.
#[derive(Clone, Debug, PartialEq, Eq)]
pub struct ConvertedFiles {
    pub numdlb_path: Option<String>,
    pub numshb_path: Option<String>,
    pub numatb_path: Option<String>,
    pub nusktb_path: Option<String>,
}

impl Default for ConvertedFiles {
    fn default() -> (r: Self)
        ensures
            r.numdlb_path is None,
            r.numshb_path is None,
            r.numatb_path is None,
            r.nusktb_path is None,
    {
        ConvertedFiles { numdlb_path: None, numshb_path: None, numatb_path: None, nusktb_path: None }
    }
}

/// The identity matrix.
pub open spec fn identity_transform() -> Mat4 {
    let o = Scalar { bits: one_bits() };
    let n = Scalar { bits: zero_bits() };
    [[o, n, n, n], [n, o, n, n], [n, n, o, n], [n, n, n, o]]
}

/// The identity matrix.
pub fn identity() -> (m: Mat4)
    ensures
        m == identity_transform(),
{
    let o = Scalar::one();
    let z = Scalar::zero();
    [[o, z, z, z], [z, o, z, z], [z, z, o, z], [z, z, z, o]]
}

} // verus!
