//! The checkpoint that turns unusable data into a fatal error.

use vstd::prelude::*;
use crate::error::{DaeError, OutputKind};
use crate::model::{ConvertedFiles, DaeMesh, DaeScene, DaeVertexWeight};
use crate::scalar::{one_bits, zero_bits, Scalar};

verus! {

/// The position of the first index of `indices` that names none of `count`
/// vertices.
pub open spec fn first_out_of_bounds(indices: Seq<u32>, count: nat) -> Option<int>
    decreases indices.len(),
{
    if indices.len() == 0 {
        None
    } else if indices[0] as nat >= count {
        Some(0)
    } else {
        match first_out_of_bounds(indices.drop_first(), count) {
            Some(p) => Some(p + 1),
            None => None,
        }
    }
}

/// What makes the mesh at position `mesh_index` unusable, if anything: no
/// vertices, no indices, an index out of bounds, or an index count that is
/// no multiple of three. The first of these that holds is reported.
pub open spec fn mesh_fault(mesh: DaeMesh, mesh_index: usize) -> Option<DaeError> {
    if mesh.vertices@.len() == 0 {
        Some(DaeError::MeshWithoutVertices { mesh_name: mesh.name, mesh_index })
    } else if mesh.indices@.len() == 0 {
        Some(DaeError::MeshWithoutIndices { mesh_name: mesh.name, mesh_index })
    } else {
        match first_out_of_bounds(mesh.indices@, mesh.vertices@.len()) {
            Some(p) => Some(
                DaeError::IndexOutOfBounds {
                    mesh_name: mesh.name,
                    mesh_index,
                    index_value: mesh.indices@[p],
                    position: p as usize,
                    vertex_count: mesh.vertices@.len() as usize,
                },
            ),
            None => if mesh.indices@.len() % 3 != 0 {
                Some(
                    DaeError::IndexCountNotTriangles {
                        mesh_name: mesh.name,
                        mesh_index,
                        index_count: mesh.indices@.len() as usize,
                    },
                )
            } else {
                None
            },
        }
    }
}

/// The fault of the first unusable mesh at or after position `from`.
pub open spec fn first_mesh_fault(meshes: Seq<DaeMesh>, from: int) -> Option<DaeError>
    decreases meshes.len() - from,
{
    if from < 0 || from >= meshes.len() {
        None
    } else {
        match mesh_fault(meshes[from], from as usize) {
            Some(e) => Some(e),
            None => first_mesh_fault(meshes, from + 1),
        }
    }
}

/// What makes a scene unusable, if anything.
pub open spec fn scene_fault(scene: DaeScene) -> Option<DaeError> {
    if scene.meshes@.len() == 0 {
        Some(DaeError::NoMeshes)
    } else {
        first_mesh_fault(scene.meshes@, 0)
    }
}

/// A verdict as a result.
pub open spec fn verdict(fault: Option<DaeError>) -> Result<(), DaeError> {
    match fault {
        Some(e) => Err(e),
        None => Ok(()),
    }
}

fn find_out_of_bounds(indices: &Vec<u32>, count: usize) -> (r: Option<usize>)
    ensures
        r is Some <==> first_out_of_bounds(indices@, count as nat) is Some,
        r is Some ==> r->0 as int == first_out_of_bounds(indices@, count as nat)->0,
        r is Some ==> r->0 < indices@.len(),
{
    let n = indices.len();
    let mut i: usize = 0;
    proof {
        assert(indices@.skip(0) =~= indices@);
    }
    while i < n
        invariant
            i <= n,
            n == indices@.len(),
            first_out_of_bounds(indices@, count as nat) == match first_out_of_bounds(
                indices@.skip(i as int),
                count as nat,
            ) {
                Some(p) => Some(p + i),
                None => None,
            },
        decreases n - i,
    {
        proof {
            assert(indices@.skip(i as int).drop_first() =~= indices@.skip(i + 1));
        }
        if indices[i] as usize >= count {
            return Some(i);
        }
        i += 1;
    }
    None
}

fn check_mesh(mesh: &DaeMesh, mesh_index: usize) -> (r: Result<(), DaeError>)
    ensures
        r == verdict(mesh_fault(*mesh, mesh_index)),
{
    if mesh.vertices.len() == 0 {
        return Err(DaeError::MeshWithoutVertices { mesh_name: mesh.name.clone(), mesh_index });
    }
    if mesh.indices.len() == 0 {
        return Err(DaeError::MeshWithoutIndices { mesh_name: mesh.name.clone(), mesh_index });
    }
    match find_out_of_bounds(&mesh.indices, mesh.vertices.len()) {
        Some(p) => {
            return Err(
                DaeError::IndexOutOfBounds {
                    mesh_name: mesh.name.clone(),
                    mesh_index,
                    index_value: mesh.indices[p],
                    position: p,
                    vertex_count: mesh.vertices.len(),
                },
            );
        },
        None => {},
    }
    if mesh.indices.len() % 3 != 0 {
        return Err(
            DaeError::IndexCountNotTriangles {
                mesh_name: mesh.name.clone(),
                mesh_index,
                index_count: mesh.indices.len(),
            },
        );
    }
    Ok(())
}

/// Checks a scene before it is converted: it must hold a mesh, and every
/// mesh must have vertices, indices in bounds, and whole triangles. The
/// first fault in mesh order is returned.
pub fn validate_dae_scene(dae_scene: &DaeScene) -> (r: Result<(), DaeError>)
    ensures
        r == verdict(scene_fault(*dae_scene)),
{
    let n = dae_scene.meshes.len();
    if n == 0 {
        return Err(DaeError::NoMeshes);
    }
    let mut i: usize = 0;
    while i < n
        invariant
            i <= n,
            n == dae_scene.meshes@.len(),
            n > 0,
            scene_fault(*dae_scene) == first_mesh_fault(dae_scene.meshes@, i as int),
        decreases n - i,
    {
        match check_mesh(&dae_scene.meshes[i], i) {
            Err(e) => {
                return Err(e);
            },
            Ok(_) => {},
        }
        i += 1;
    }
    Ok(())
}

/// Which of the four files of a conversion are on disk.
#[derive(Clone, Copy, Debug, PartialEq, Eq, Structural)]
pub struct FilesOnDisk {
    pub numdlb: bool,
    pub numshb: bool,
    pub numatb: bool,
    pub nusktb: bool,
}

/// A named file that is not on disk.
pub open spec fn missing(path: Option<String>, on_disk: bool) -> bool {
    path is Some && !on_disk
}

/// What is wrong with a record of written files, if anything. The model
/// file and the mesh file have to be named, in this order. Then every file
/// that the record names has to be on disk: model, mesh, material,
/// skeleton; the first that is not is reported. A material or skeleton file
/// that the record does not name is not asked for.
pub open spec fn files_fault(files: ConvertedFiles, on_disk: FilesOnDisk) -> Option<DaeError> {
    if files.numdlb_path is None {
        Some(DaeError::OutputNotCreated { kind: OutputKind::Model })
    } else if files.numshb_path is None {
        Some(DaeError::OutputNotCreated { kind: OutputKind::Mesh })
    } else if missing(files.numdlb_path, on_disk.numdlb) {
        Some(DaeError::OutputMissing { path: files.numdlb_path->0 })
    } else if missing(files.numshb_path, on_disk.numshb) {
        Some(DaeError::OutputMissing { path: files.numshb_path->0 })
    } else if missing(files.numatb_path, on_disk.numatb) {
        Some(DaeError::OutputMissing { path: files.numatb_path->0 })
    } else if missing(files.nusktb_path, on_disk.nusktb) {
        Some(DaeError::OutputMissing { path: files.nusktb_path->0 })
    } else {
        None
    }
}

fn check_on_disk(path: &Option<String>, on_disk: bool) -> (r: Result<(), DaeError>)
    ensures
        r == verdict(
            if missing(*path, on_disk) {
                Some(DaeError::OutputMissing { path: path->0 })
            } else {
                None
            },
        ),
{
    match path {
        Some(p) => {
            if on_disk {
                Ok(())
            } else {
                Err(DaeError::OutputMissing { path: p.clone() })
            }
        },
        None => Ok(()),
    }
}

/// Checks the record of a conversion against what the caller found on
/// disk.
pub fn validate_converted_files(converted_files: &ConvertedFiles, on_disk: FilesOnDisk) -> (r:
    Result<(), DaeError>)
    ensures
        r == verdict(files_fault(*converted_files, on_disk)),
{
    if converted_files.numdlb_path.is_none() {
        return Err(DaeError::OutputNotCreated { kind: OutputKind::Model });
    }
    if converted_files.numshb_path.is_none() {
        return Err(DaeError::OutputNotCreated { kind: OutputKind::Mesh });
    }
    match check_on_disk(&converted_files.numdlb_path, on_disk.numdlb) {
        Err(e) => {
            return Err(e);
        },
        Ok(_) => {},
    }
    match check_on_disk(&converted_files.numshb_path, on_disk.numshb) {
        Err(e) => {
            return Err(e);
        },
        Ok(_) => {},
    }
    match check_on_disk(&converted_files.numatb_path, on_disk.numatb) {
        Err(e) => {
            return Err(e);
        },
        Ok(_) => {},
    }
    check_on_disk(&converted_files.nusktb_path, on_disk.nusktb)
}

/// Something about a mesh that is worth a warning but does not stop a
/// conversion.
#[derive(Clone, Copy, Debug, PartialEq, Eq)]
pub enum SceneWarning {
    /// There are normals, but not one per vertex.
    NormalCountMismatch { mesh_index: usize, normals: usize, vertices: usize },
    /// There are texture coordinates, but not one per vertex.
    UvCountMismatch { mesh_index: usize, uvs: usize, vertices: usize },
    /// A weight is bound to a vertex that the mesh does not have.
    WeightVertexOutOfRange {
        mesh_index: usize,
        influence_index: usize,
        vertex_index: u32,
        vertices: usize,
    },
    /// A weight is below zero or above one.
    WeightOutOfRange { mesh_index: usize, influence_index: usize, weight: Scalar },
}

/// Whether a weight lies outside of the range from zero to one. A NaN does
/// not.
pub open spec fn outside_unit(w: Scalar) -> bool {
    w.less_than(Scalar { bits: zero_bits() }) || (Scalar { bits: one_bits() }).less_than(w)
}

/// The warnings that one weight is worth.
pub open spec fn weight_warnings(
    w: DaeVertexWeight,
    mesh_index: usize,
    influence_index: usize,
    vertices: usize,
) -> Seq<SceneWarning> {
    (if w.vertex_index as int >= vertices {
        seq![
            SceneWarning::WeightVertexOutOfRange {
                mesh_index,
                influence_index,
                vertex_index: w.vertex_index,
                vertices,
            },
        ]
    } else {
        Seq::empty()
    }) + (if outside_unit(w.weight) {
        seq![SceneWarning::WeightOutOfRange { mesh_index, influence_index, weight: w.weight }]
    } else {
        Seq::empty()
    })
}

/// The warnings that the first `upto` weights of an influence are worth.
pub open spec fn influence_warnings(
    weights: Seq<DaeVertexWeight>,
    mesh_index: usize,
    influence_index: usize,
    vertices: usize,
    upto: nat,
) -> Seq<SceneWarning>
    decreases upto,
{
    if upto == 0 {
        Seq::empty()
    } else {
        influence_warnings(weights, mesh_index, influence_index, vertices, (upto - 1) as nat)
            + weight_warnings(weights[upto - 1], mesh_index, influence_index, vertices)
    }
}

/// The warnings about the attribute lists of a mesh.
pub open spec fn attribute_warnings(mesh: DaeMesh, mesh_index: usize) -> Seq<SceneWarning> {
    let vertices = mesh.vertices@.len();
    (if mesh.normals@.len() > 0 && mesh.normals@.len() != vertices {
        seq![
            SceneWarning::NormalCountMismatch {
                mesh_index,
                normals: mesh.normals@.len() as usize,
                vertices: vertices as usize,
            },
        ]
    } else {
        Seq::empty()
    }) + (if mesh.uvs@.len() > 0 && mesh.uvs@.len() != vertices {
        seq![
            SceneWarning::UvCountMismatch {
                mesh_index,
                uvs: mesh.uvs@.len() as usize,
                vertices: vertices as usize,
            },
        ]
    } else {
        Seq::empty()
    })
}

/// The warnings about a mesh, its first `upto` influences taken in: first
/// those about its attribute lists, then those about its weights, influence
/// by influence.
pub open spec fn mesh_warnings(mesh: DaeMesh, mesh_index: usize, upto: nat) -> Seq<SceneWarning>
    decreases upto,
{
    if upto == 0 {
        attribute_warnings(mesh, mesh_index)
    } else {
        mesh_warnings(mesh, mesh_index, (upto - 1) as nat) + influence_warnings(
            mesh.bone_influences@[upto - 1].vertex_weights@,
            mesh_index,
            (upto - 1) as usize,
            mesh.vertices@.len() as usize,
            mesh.bone_influences@[upto - 1].vertex_weights@.len(),
        )
    }
}

/// Lists what about a mesh is worth a warning.
pub fn check_mesh_softly(mesh: &DaeMesh, mesh_index: usize) -> (r: Vec<SceneWarning>)
    ensures
        r@ == mesh_warnings(*mesh, mesh_index, mesh.bone_influences@.len()),
{
    let vertices = mesh.vertices.len();
    let mut out: Vec<SceneWarning> = Vec::new();
    if mesh.normals.len() > 0 && mesh.normals.len() != vertices {
        out.push(
            SceneWarning::NormalCountMismatch { mesh_index, normals: mesh.normals.len(), vertices },
        );
    }
    if mesh.uvs.len() > 0 && mesh.uvs.len() != vertices {
        out.push(SceneWarning::UvCountMismatch { mesh_index, uvs: mesh.uvs.len(), vertices });
    }
    proof {
        assert(out@ =~= attribute_warnings(*mesh, mesh_index));
    }
    let n = mesh.bone_influences.len();
    let mut i: usize = 0;
    while i < n
        invariant
            i <= n,
            n == mesh.bone_influences@.len(),
            vertices == mesh.vertices@.len(),
            out@ == mesh_warnings(*mesh, mesh_index, i as nat),
        decreases n - i,
    {
        let weights = &mesh.bone_influences[i].vertex_weights;
        let ghost before = out@;
        let m = weights.len();
        let mut k: usize = 0;
        proof {
            assert(before + influence_warnings(weights@, mesh_index, i, vertices, 0) =~= before);
        }
        while k < m
            invariant
                k <= m,
                m == weights@.len(),
                out@ == before + influence_warnings(weights@, mesh_index, i, vertices, k as nat),
            decreases m - k,
        {
            let w = weights[k];
            let ghost prev = out@;
            if w.vertex_index as usize >= vertices {
                out.push(
                    SceneWarning::WeightVertexOutOfRange {
                        mesh_index,
                        influence_index: i,
                        vertex_index: w.vertex_index,
                        vertices,
                    },
                );
            }
            if w.weight.lt(Scalar::zero()) || Scalar::one().lt(w.weight) {
                out.push(
                    SceneWarning::WeightOutOfRange {
                        mesh_index,
                        influence_index: i,
                        weight: w.weight,
                    },
                );
            }
            proof {
                assert(out@ =~= prev + weight_warnings(w, mesh_index, i, vertices));
                assert(out@ =~= before + influence_warnings(
                    weights@,
                    mesh_index,
                    i,
                    vertices,
                    (k + 1) as nat,
                ));
            }
            k += 1;
        }
        i += 1;
    }
    out
}

} // verus!
