//! What can go wrong in a conversion.

use vstd::prelude::*;
use vstd::string::StringExecFns;
use crate::text::{decimal_digits, push_decimal};

verus! {

/// One of the files that a conversion to the binary model format writes.
#[derive(Clone, Copy, Debug, PartialEq, Eq, Structural)]
pub enum OutputKind {
    /// The model file, extension `numdlb`.
    Model,
    /// The mesh file, extension `numshb`.
    Mesh,
    /// The material file, extension `numatb`.
    Material,
    /// The skeleton file, extension `nusktb`.
    Skeleton,
}

/// A fatal error: the conversion stops.
#[derive(Clone, Debug, PartialEq, Eq)]
pub enum DaeError {
    /// The document is no well-formed XML; `detail` is the parser's message.
    MalformedXml { detail: String },
    /// The document holds no element.
    NoRootElement,
    /// The scene holds no mesh.
    NoMeshes,
    /// A mesh has no vertex.
    MeshWithoutVertices { mesh_name: String, mesh_index: usize },
    /// A mesh has no index.
    MeshWithoutIndices { mesh_name: String, mesh_index: usize },
    /// The index at `position` refers to a vertex that the mesh does not have.
    IndexOutOfBounds {
        mesh_name: String,
        mesh_index: usize,
        index_value: u32,
        position: usize,
        vertex_count: usize,
    },
    /// The number of indices is no multiple of three.
    IndexCountNotTriangles { mesh_name: String, mesh_index: usize, index_count: usize },
    /// Every mesh of the scene was skipped for want of vertices.
    NoMeshObjects,
    /// The computed vectors are not one set per mesh.
    VectorsMismatch { meshes: usize, vectors: usize },
    /// The vectors computed for a mesh are not one per vertex.
    VectorsUnfit { mesh_index: usize, vertices: usize },
    /// The lists of blends are not one per mesh object.
    BlendListsMismatch { objects: usize, lists: usize },
    /// The sets of weights are not one per mesh object.
    SkinsMismatch { objects: usize, skins: usize },
    /// The blends of a skinned mesh object are not one per vertex.
    BlendsMismatch { object_index: usize, vertices: usize, blends: usize },
    /// The node transforms are not one per bone.
    TransformsMismatch { bones: usize, transforms: usize },
    /// The inverse bind matrices are not one per bone.
    MatricesMismatch { bones: usize, matrices: usize },
    /// The places of the weights of a mesh do not fit its influences.
    WeightsMismatch { mesh_index: usize },
    /// There is no mesh data to export.
    NoMeshData,
    /// The record of written files names no file of this kind.
    OutputNotCreated { kind: OutputKind },
    /// The record of written files names a file that is not on disk.
    OutputMissing { path: String },
    /// A mesh object to export has no positions.
    MeshWithoutPositions { mesh_name: String },
}

impl OutputKind {
    /// The extension of a file of this kind.
    pub open spec fn extension(self) -> Seq<char> {
        match self {
            OutputKind::Model => "numdlb"@,
            OutputKind::Mesh => "numshb"@,
            OutputKind::Material => "numatb"@,
            OutputKind::Skeleton => "nusktb"@,
        }
    }

    /// The extension of a file of this kind.
    pub fn extension_text(self) -> (r: &'static str)
        ensures
            r@ == self.extension(),
    {
        match self {
            OutputKind::Model => "numdlb",
            OutputKind::Mesh => "numshb",
            OutputKind::Material => "numatb",
            OutputKind::Skeleton => "nusktb",
        }
    }
}

/// The start of a message about a mesh: its name and its position.
pub open spec fn mesh_subject(name: Seq<char>, index: usize) -> Seq<char> {
    "Mesh '"@ + name + "' (index "@ + decimal_digits(index as nat) + ")"@
}

/// A message that counts what was computed against what it was computed
/// for.
pub open spec fn count_message(computed: usize, what: Seq<char>, wanted: usize, whom: Seq<char>) -> Seq<
    char,
> {
    decimal_digits(computed as nat) + what + decimal_digits(wanted as nat) + whom
}

impl DaeError {
    /// The message of the error, for a user to read.
    pub open spec fn text(self) -> Seq<char> {
        match self {
            DaeError::MalformedXml { detail } => "Failed to parse DAE XML: "@ + detail@,
            DaeError::NoRootElement => "Failed to parse DAE XML: no root element"@,
            DaeError::NoMeshes => "DAE file contains no valid meshes"@,
            DaeError::MeshWithoutVertices { mesh_name, mesh_index } => mesh_subject(
                mesh_name@,
                mesh_index,
            ) + " has no vertices"@,
            DaeError::MeshWithoutIndices { mesh_name, mesh_index } => mesh_subject(
                mesh_name@,
                mesh_index,
            ) + " has no indices"@,
            DaeError::IndexOutOfBounds {
                mesh_name,
                mesh_index,
                index_value,
                position,
                vertex_count,
            } => mesh_subject(mesh_name@, mesh_index) + " has out-of-bounds index: "@
                + decimal_digits(index_value as nat) + " at position "@ + decimal_digits(
                position as nat,
            ) + " (max valid index: "@ + decimal_digits(
                if vertex_count == 0 {
                    0
                } else {
                    (vertex_count - 1) as nat
                },
            ) + ", vertex count: "@ + decimal_digits(vertex_count as nat) + ")"@,
            DaeError::IndexCountNotTriangles { mesh_name, mesh_index, index_count } => mesh_subject(
                mesh_name@,
                mesh_index,
            ) + " has invalid index count: "@ + decimal_digits(index_count as nat)
                + " (must be divisible by 3 for triangles)"@,
            DaeError::NoMeshObjects => "No valid mesh objects were created from DAE data"@,
            DaeError::VectorsMismatch { meshes, vectors } => count_message(
                vectors,
                " sets of vectors were computed for "@,
                meshes,
                " meshes"@,
            ),
            DaeError::VectorsUnfit { mesh_index, vertices } => "The vectors computed for mesh "@
                + decimal_digits(mesh_index as nat) + " are not one for each of its "@
                + decimal_digits(vertices as nat) + " vertices"@,
            DaeError::BlendListsMismatch { objects, lists } => count_message(
                lists,
                " lists of blends were computed for "@,
                objects,
                " mesh objects"@,
            ),
            DaeError::SkinsMismatch { objects, skins } => count_message(
                skins,
                " sets of joints and weights were computed for "@,
                objects,
                " mesh objects"@,
            ),
            DaeError::BlendsMismatch { object_index, vertices, blends } => count_message(
                blends,
                " blends were computed for the "@,
                vertices,
                " vertices of mesh object "@,
            ) + decimal_digits(object_index as nat),
            DaeError::TransformsMismatch { bones, transforms } => count_message(
                transforms,
                " node transforms were computed for "@,
                bones,
                " bones"@,
            ),
            DaeError::MatricesMismatch { bones, matrices } => count_message(
                matrices,
                " inverse bind matrices were computed for "@,
                bones,
                " bones"@,
            ),
            DaeError::WeightsMismatch { mesh_index } => "The weights computed for mesh "@
                + decimal_digits(mesh_index as nat) + " do not fit its influences"@,
            DaeError::NoMeshData => "No mesh data available for DAE export"@,
            DaeError::OutputNotCreated { kind } => "Failed to create ."@ + kind.extension()
                + " file"@,
            DaeError::OutputMissing { path } => "Generated file does not exist: "@ + path@,
            DaeError::MeshWithoutPositions { mesh_name } => "Mesh '"@ + mesh_name@
                + "' has no positions"@,
        }
    }

    /// The message of the error, for a user to read.
    pub fn message(&self) -> (r: String)
        ensures
            r@ == self.text(),
    {
        match self {
            DaeError::MalformedXml { detail } => {
                let mut out = "Failed to parse DAE XML: ".to_owned();
                out.append(detail.as_str());
                out
            },
            DaeError::NoRootElement => "Failed to parse DAE XML: no root element".to_owned(),
            DaeError::NoMeshes => "DAE file contains no valid meshes".to_owned(),
            DaeError::MeshWithoutVertices { mesh_name, mesh_index } => {
                let mut out = about_mesh(mesh_name.as_str(), *mesh_index);
                out.append(" has no vertices");
                out
            },
            DaeError::MeshWithoutIndices { mesh_name, mesh_index } => {
                let mut out = about_mesh(mesh_name.as_str(), *mesh_index);
                out.append(" has no indices");
                out
            },
            DaeError::IndexOutOfBounds {
                mesh_name,
                mesh_index,
                index_value,
                position,
                vertex_count,
            } => {
                let mut out = about_mesh(mesh_name.as_str(), *mesh_index);
                out.append(" has out-of-bounds index: ");
                push_decimal(&mut out, *index_value as u64);
                out.append(" at position ");
                push_decimal(&mut out, *position as u64);
                out.append(" (max valid index: ");
                let last: usize = if *vertex_count == 0 {
                    0
                } else {
                    *vertex_count - 1
                };
                push_decimal(&mut out, last as u64);
                out.append(", vertex count: ");
                push_decimal(&mut out, *vertex_count as u64);
                out.append(")");
                out
            },
            DaeError::IndexCountNotTriangles { mesh_name, mesh_index, index_count } => {
                let mut out = about_mesh(mesh_name.as_str(), *mesh_index);
                out.append(" has invalid index count: ");
                push_decimal(&mut out, *index_count as u64);
                out.append(" (must be divisible by 3 for triangles)");
                out
            },
            DaeError::NoMeshObjects => "No valid mesh objects were created from DAE data".to_owned(),
            DaeError::VectorsMismatch { meshes, vectors } => counted(
                *vectors,
                " sets of vectors were computed for ",
                *meshes,
                " meshes",
            ),
            DaeError::VectorsUnfit { mesh_index, vertices } => {
                let mut out = "The vectors computed for mesh ".to_owned();
                push_decimal(&mut out, *mesh_index as u64);
                out.append(" are not one for each of its ");
                push_decimal(&mut out, *vertices as u64);
                out.append(" vertices");
                out
            },
            DaeError::BlendListsMismatch { objects, lists } => counted(
                *lists,
                " lists of blends were computed for ",
                *objects,
                " mesh objects",
            ),
            DaeError::SkinsMismatch { objects, skins } => counted(
                *skins,
                " sets of joints and weights were computed for ",
                *objects,
                " mesh objects",
            ),
            DaeError::BlendsMismatch { object_index, vertices, blends } => {
                let mut out = counted(
                    *blends,
                    " blends were computed for the ",
                    *vertices,
                    " vertices of mesh object ",
                );
                push_decimal(&mut out, *object_index as u64);
                out
            },
            DaeError::TransformsMismatch { bones, transforms } => counted(
                *transforms,
                " node transforms were computed for ",
                *bones,
                " bones",
            ),
            DaeError::MatricesMismatch { bones, matrices } => counted(
                *matrices,
                " inverse bind matrices were computed for ",
                *bones,
                " bones",
            ),
            DaeError::WeightsMismatch { mesh_index } => {
                let mut out = "The weights computed for mesh ".to_owned();
                push_decimal(&mut out, *mesh_index as u64);
                out.append(" do not fit its influences");
                out
            },
            DaeError::NoMeshData => "No mesh data available for DAE export".to_owned(),
            DaeError::OutputNotCreated { kind } => {
                let mut out = "Failed to create .".to_owned();
                out.append(kind.extension_text());
                out.append(" file");
                out
            },
            DaeError::OutputMissing { path } => {
                let mut out = "Generated file does not exist: ".to_owned();
                out.append(path.as_str());
                out
            },
            DaeError::MeshWithoutPositions { mesh_name } => {
                let mut out = "Mesh '".to_owned();
                out.append(mesh_name.as_str());
                out.append("' has no positions");
                out
            },
        }
    }
}

fn about_mesh(name: &str, index: usize) -> (r: String)
    ensures
        r@ == mesh_subject(name@, index),
{
    let mut out = "Mesh '".to_owned();
    out.append(name);
    out.append("' (index ");
    push_decimal(&mut out, index as u64);
    out.append(")");
    out
}

fn counted(computed: usize, what: &str, wanted: usize, whom: &str) -> (r: String)
    ensures
        r@ == count_message(computed, what@, wanted, whom@),
{
    let mut out = String::new();
    push_decimal(&mut out, computed as u64);
    out.append(what);
    push_decimal(&mut out, wanted as u64);
    out.append(whom);
    proof {
        assert(out@ =~= count_message(computed, what@, wanted, whom@));
    }
    out
}

} // verus!
