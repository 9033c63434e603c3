//! What goes into a COLLADA document, gathered from a mesh file and a
//! skeleton.
//!
//! Texts made of numbers are kept as numbers; whoever writes the document
//! writes them out.

use vstd::prelude::*;
use crate::error::DaeError;
use crate::lists::{copy_list, optional_view};
use crate::model::{Mat4, UpAxisConversion, Vec2, Vec3};
use crate::records::{
    as_vec2,
    as_vec3,
    bone_influence_models,
    convert_vector_data_to_vec2,
    convert_vector_data_to_vec3,
    AttributeData,
    BoneInfluence,
    MeshData,
    MeshObjectData,
    SkelData,
    VertexWeight,
};
use crate::scalar::{one_bits, Scalar};

verus! {

/// How a scene is exported to COLLADA.
#[derive(Clone, Copy, Debug, PartialEq, Eq)]
pub struct DaeExportConfig {
    pub up_axis: UpAxisConversion,
    pub scale_factor: Scalar,
}

impl Default for DaeExportConfig {
    fn default() -> (r: Self)
        ensures
            r.up_axis == UpAxisConversion::YUp,
            r.scale_factor.bits == one_bits(),
    {
        DaeExportConfig { up_axis: UpAxisConversion::YUp, scale_factor: Scalar::one() }
    }
}

/// A mesh object on its way to a document.
#[derive(Clone, Debug, PartialEq, Eq)]
pub struct JsonMeshObject {
    pub name: String,
    pub vertex_indices: Vec<u32>,
    pub positions: Vec<Vec3>,
    pub normals: Option<Vec<Vec3>>,
    pub texcoords0: Option<Vec<Vec2>>,
    pub bone_influences: Vec<BoneInfluence>,
}

/// A bone on its way to a document.
#[derive(Clone, Debug, PartialEq, Eq)]
pub struct JsonBone {
    pub name: String,
    pub transform: Mat4,
    pub parent_index: Option<usize>,
}

/// A scene on its way to a document.
#[derive(Clone, Debug, PartialEq, Eq)]
pub struct JsonScene {
    pub meshes: Vec<JsonMeshObject>,
    pub bones: Vec<JsonBone>,
}

/// The vectors of the first of `attributes`, as vectors of three.
pub open spec fn first_vec3(attributes: Seq<AttributeData>) -> Option<Seq<Vec3>> {
    if attributes.len() > 0 {
        Some(as_vec3(attributes[0].data.model()))
    } else {
        None
    }
}

/// The vectors of the first of `attributes`, as vectors of two.
pub open spec fn first_vec2(attributes: Seq<AttributeData>) -> Option<Seq<Vec2>> {
    if attributes.len() > 0 {
        Some(as_vec2(attributes[0].data.model()))
    } else {
        None
    }
}

/// What a mesh object carries into a document: its first positions, normals
/// and texture coordinates, its indices and its influences.
pub open spec fn carries(o: MeshObjectData, m: JsonMeshObject) -> bool {
    &&& m.name@ == o.name@
    &&& m.vertex_indices@ == o.vertex_indices@
    &&& Some(m.positions@) == first_vec3(o.positions@)
    &&& optional_view(m.normals) == first_vec3(o.normals@)
    &&& optional_view(m.texcoords0) == first_vec2(o.texture_coordinates@)
    &&& bone_influence_models(m.bone_influences@)
        == bone_influence_models(o.bone_influences@)
}

/// The position of the first object without positions.
pub open spec fn first_without_positions(objects: Seq<MeshObjectData>) -> Option<int>
    decreases objects.len(),
{
    if objects.len() == 0 {
        None
    } else {
        match first_without_positions(objects.drop_last()) {
            Some(i) => Some(i),
            None => if objects.last().positions@.len() == 0 {
                Some(objects.len() - 1)
            } else {
                None
            },
        }
    }
}

fn first_positions(object: &MeshObjectData) -> (r: Option<Vec<Vec3>>)
    ensures
        optional_view(r) == first_vec3(object.positions@),
{
    if object.positions.len() > 0 {
        Some(convert_vector_data_to_vec3(&object.positions[0].data))
    } else {
        None
    }
}

fn copy_influences(list: &Vec<BoneInfluence>) -> (r: Vec<BoneInfluence>)
    ensures
        bone_influence_models(r@) == bone_influence_models(list@),
{
    let mut out: Vec<BoneInfluence> = Vec::new();
    let n = list.len();
    let mut i: usize = 0;
    while i < n
        invariant
            i <= n,
            n == list@.len(),
            out@.len() == i,
            forall|k: int| 0 <= k < i ==> (#[trigger] out@[k]).model() == list@[k].model(),
        decreases n - i,
    {
        let source = &list[i].vertex_weights;
        let mut weights: Vec<VertexWeight> = Vec::new();
        let m = source.len();
        let mut k: usize = 0;
        while k < m
            invariant
                k <= m,
                m == source@.len(),
                weights@ == source@.take(k as int),
            decreases m - k,
        {
            weights.push(source[k]);
            proof {
                assert(weights@ =~= source@.take(k + 1));
            }
            k += 1;
        }
        proof {
            assert(source@.take(m as int) =~= source@);
        }
        out.push(BoneInfluence { bone_name: list[i].bone_name.clone(), vertex_weights: weights });
        i += 1;
    }
    proof {
        assert(bone_influence_models(out@) =~= bone_influence_models(
            list@,
        ));
    }
    out
}

/// Gathers from a mesh file and a skeleton what goes into a document.
/// Positions are taken as they are: to scale them is left to the caller.
///
/// It fails without mesh data, and on the first object without positions.
pub fn build_intermediate_scene(mesh_data: Option<&MeshData>, skel_data: Option<&SkelData>) -> (r:
    Result<JsonScene, DaeError>)
    ensures
        match r {
            Ok(scene) => {
                &&& mesh_data is Some
                &&& first_without_positions(mesh_data->0.objects@) is None
                &&& scene.meshes@.len() == mesh_data->0.objects@.len()
                &&& forall|i: int|
                    0 <= i < scene.meshes@.len() ==> carries(
                        mesh_data->0.objects@[i],
                        #[trigger] scene.meshes@[i],
                    )
                &&& scene.bones@.len() == (match skel_data {
                    Some(skel) => skel.bones@.len(),
                    None => 0,
                })
                &&& forall|i: int|
                    0 <= i < scene.bones@.len() ==> {
                        &&& (#[trigger] scene.bones@[i]).name@ == skel_data->0.bones@[i].name@
                        &&& scene.bones@[i].transform == skel_data->0.bones@[i].transform
                        &&& scene.bones@[i].parent_index == skel_data->0.bones@[i].parent_index
                    }
            },
            Err(e) => match mesh_data {
                None => e == DaeError::NoMeshData,
                Some(mesh) => match first_without_positions(mesh.objects@) {
                    Some(i) => e == DaeError::MeshWithoutPositions {
                        mesh_name: mesh.objects@[i].name,
                    },
                    None => false,
                },
            },
        },
{
    let mesh = match mesh_data {
        Some(m) => m,
        None => {
            return Err(DaeError::NoMeshData);
        },
    };
    let mut meshes: Vec<JsonMeshObject> = Vec::new();
    let n = mesh.objects.len();
    let mut i: usize = 0;
    proof {
        assert(mesh.objects@.take(0) =~= Seq::<MeshObjectData>::empty());
    }
    while i < n
        invariant
            i <= n,
            n == mesh.objects@.len(),
            mesh_data == Some(mesh),
            meshes@.len() == i,
            first_without_positions(mesh.objects@.take(i as int)) is None,
            forall|k: int| 0 <= k < i ==> carries(mesh.objects@[k], #[trigger] meshes@[k]),
        decreases n - i,
    {
        proof {
            assert(mesh.objects@.take(i + 1).drop_last() =~= mesh.objects@.take(i as int));
            assert(mesh.objects@.take(i + 1).last() == mesh.objects@[i as int]);
        }
        let object = &mesh.objects[i];
        let positions = match first_positions(object) {
            Some(p) => p,
            None => {
                proof {
                    lemma_first_without_positions(mesh.objects@, i + 1);
                }
                return Err(DaeError::MeshWithoutPositions { mesh_name: object.name.clone() });
            },
        };
        let normals = if object.normals.len() > 0 {
            Some(convert_vector_data_to_vec3(&object.normals[0].data))
        } else {
            None
        };
        let texcoords0 = if object.texture_coordinates.len() > 0 {
            Some(convert_vector_data_to_vec2(&object.texture_coordinates[0].data))
        } else {
            None
        };
        meshes.push(
            JsonMeshObject {
                name: object.name.clone(),
                vertex_indices: copy_list(&object.vertex_indices),
                positions,
                normals,
                texcoords0,
                bone_influences: copy_influences(&object.bone_influences),
            },
        );
        i += 1;
    }
    proof {
        assert(mesh.objects@.take(n as int) =~= mesh.objects@);
    }
    let mut bones: Vec<JsonBone> = Vec::new();
    match skel_data {
        Some(skel) => {
            let m = skel.bones.len();
            let mut k: usize = 0;
            while k < m
                invariant
                    k <= m,
                    m == skel.bones@.len(),
                    bones@.len() == k,
                    forall|j: int|
                        0 <= j < k ==> {
                            &&& (#[trigger] bones@[j]).name@ == skel.bones@[j].name@
                            &&& bones@[j].transform == skel.bones@[j].transform
                            &&& bones@[j].parent_index == skel.bones@[j].parent_index
                        },
                decreases m - k,
            {
                bones.push(
                    JsonBone {
                        name: skel.bones[k].name.clone(),
                        transform: skel.bones[k].transform,
                        parent_index: skel.bones[k].parent_index,
                    },
                );
                k += 1;
            }
        },
        None => {},
    }
    Ok(JsonScene { meshes, bones })
}

/// The first object without positions among some is the first among all.
proof fn lemma_first_without_positions(objects: Seq<MeshObjectData>, k: int)
    requires
        0 < k <= objects.len(),
        first_without_positions(objects.take(k - 1)) is None,
        objects[k - 1].positions@.len() == 0,
    ensures
        first_without_positions(objects) == Some(k - 1),
    decreases objects.len() - k,
{
    assert(objects.take(k).drop_last() =~= objects.take(k - 1));
    assert(first_without_positions(objects.take(k)) == Some(k - 1));
    lemma_first_kept(objects, k, k - 1);
}

proof fn lemma_first_kept(objects: Seq<MeshObjectData>, k: int, at: int)
    requires
        0 <= k <= objects.len(),
        first_without_positions(objects.take(k)) == Some(at),
    ensures
        first_without_positions(objects) == Some(at),
    decreases objects.len() - k,
{
    if k == objects.len() {
        assert(objects.take(k) =~= objects);
    } else {
        assert(objects.take(k + 1).drop_last() =~= objects.take(k));
        lemma_first_kept(objects, k + 1, at);
    }
}

} // verus!
