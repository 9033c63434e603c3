//! A whole glTF asset, assembled from a mesh file and a skeleton.

use vstd::prelude::*;
use crate::error::DaeError;
use crate::gltf::buffer::{Accessor, BufferView};
use crate::gltf::layout::{
    empty_layout,
    fits,
    layout_of,
    lemma_streams_grow,
    lemma_with_matrices_packed,
    packed,
    with_matrices,
    Layout,
};
use crate::gltf::mesh::{
    after_objects,
    blend_lists,
    bones_of,
    bound_skins,
    gltf_mesh_models,
    lemma_after_objects_packed,
    mesh_data_fault,
    meshes_of_objects,
    process_mesh_data,
    GltfMaterial,
    GltfMesh,
    GltfMeshModel,
};
use crate::gltf::nodes::{
    count_up,
    create_mesh_nodes,
    create_skin,
    mesh_nodes,
    node_models,
    process_skeleton_data,
    skeleton_nodes,
    GltfNode,
    GltfNodeModel,
    GltfSkin,
    NodeTransform,
};
use crate::gltf::skin::{SkinModel, VertexBlend};
use crate::records::{BoneData, MeshData, MeshObjectData, SkelData};
use crate::scalar::Scalar;

verus! {

/// What only arithmetic on numbers can give for an asset: for each bone
/// the parts of its local transform; for each mesh object, by position,
/// one blend per vertex; for each bone its inverse bind matrix.
#[derive(Clone, Debug, PartialEq, Eq)]
pub struct GltfArithmetic {
    pub node_transforms: Vec<NodeTransform>,
    pub blends: Vec<Vec<VertexBlend>>,
    pub inverse_bind_matrices: Vec<[Scalar; 16]>,
}

/// The file that holds the bytes of the buffer.
#[derive(Clone, Debug, PartialEq, Eq)]
pub struct GltfBuffer {
    pub byte_length: usize,
    pub uri: String,
}

/// A glTF asset in memory: the bytes of its buffer, and all that describes
/// them.
#[derive(Clone, Debug, PartialEq, Eq)]
pub struct GltfDocument {
    pub generator: String,
    pub version: String,
    pub buffer_data: Vec<u8>,
    pub buffer: Option<GltfBuffer>,
    pub buffer_views: Vec<BufferView>,
    pub accessors: Vec<Accessor>,
    pub meshes: Vec<GltfMesh>,
    pub materials: Vec<GltfMaterial>,
    pub nodes: Vec<GltfNode>,
    pub skins: Vec<GltfSkin>,
    pub scene_nodes: Vec<usize>,
}

/// Some object has influences.
pub open spec fn any_influences(objects: Seq<MeshObjectData>) -> bool {
    exists|i: int| 0 <= i < objects.len() && (#[trigger] objects[i]).bone_influences@.len() > 0
}

/// Whether an asset gets a skin: there is a skeleton, and some object has
/// influences.
pub open spec fn needs_skin(mesh_data: Option<&MeshData>, skel_data: Option<&SkelData>) -> bool {
    match (mesh_data, skel_data) {
        (Some(mesh), Some(_)) => any_influences(mesh.objects@),
        _ => false,
    }
}

/// For each object of a mesh file its joints and weights: every vertex
/// bound to its four strongest influences by the shares given for it.
pub open spec fn document_skins(
    mesh: &MeshData,
    skel_data: Option<&SkelData>,
    arithmetic: GltfArithmetic,
) -> Seq<SkinModel> {
    bound_skins(mesh.objects@, bones_of(skel_data), blend_lists(arithmetic.blends@))
}

/// What keeps an asset from being assembled, if anything: node transforms
/// that are not one per bone, blends that are not one list per object and
/// one per vertex of each skinned object, or, for a skin, inverse bind
/// matrices that are not one per bone.
pub open spec fn document_fault(
    mesh_data: Option<&MeshData>,
    skel_data: Option<&SkelData>,
    arithmetic: GltfArithmetic,
) -> Option<DaeError> {
    if skel_data is Some && arithmetic.node_transforms@.len() != skel_data->0.bones@.len() {
        Some(
            DaeError::TransformsMismatch {
                bones: skel_data->0.bones@.len() as usize,
                transforms: arithmetic.node_transforms@.len() as usize,
            },
        )
    } else if mesh_data is Some && mesh_data_fault(
        mesh_data->0.objects@,
        skel_data,
        blend_lists(arithmetic.blends@),
    ) is Some {
        mesh_data_fault(mesh_data->0.objects@, skel_data, blend_lists(arithmetic.blends@))
    } else if needs_skin(mesh_data, skel_data) && arithmetic.inverse_bind_matrices@.len()
        != skel_data->0.bones@.len() {
        Some(
            DaeError::MatricesMismatch {
                bones: skel_data->0.bones@.len() as usize,
                matrices: arithmetic.inverse_bind_matrices@.len() as usize,
            },
        )
    } else {
        None
    }
}

/// The layout of an asset: the streams of its objects, then the inverse
/// bind matrices if it has a skin.
pub open spec fn document_layout(
    mesh_data: Option<&MeshData>,
    skel_data: Option<&SkelData>,
    arithmetic: GltfArithmetic,
) -> Layout {
    match mesh_data {
        Some(mesh) => {
            let objects = after_objects(
                empty_layout(),
                mesh.objects@,
                skel_data is Some,
                document_skins(mesh, skel_data, arithmetic),
                mesh.objects@.len(),
            );
            if needs_skin(mesh_data, skel_data) {
                with_matrices(objects, arithmetic.inverse_bind_matrices@)
            } else {
                objects
            }
        },
        None => empty_layout(),
    }
}

/// The meshes of an asset.
pub open spec fn document_meshes(
    mesh_data: Option<&MeshData>,
    skel_data: Option<&SkelData>,
    arithmetic: GltfArithmetic,
) -> Seq<GltfMeshModel> {
    match mesh_data {
        Some(mesh) => meshes_of_objects(
            empty_layout(),
            mesh.objects@,
            skel_data is Some,
            document_skins(mesh, skel_data, arithmetic),
            mesh.objects@.len(),
        ),
        None => Seq::empty(),
    }
}

/// The nodes of an asset: those of its bones, then those of its meshes.
pub open spec fn document_nodes(
    mesh_data: Option<&MeshData>,
    skel_data: Option<&SkelData>,
    arithmetic: GltfArithmetic,
) -> Seq<GltfNodeModel> {
    (match skel_data {
        Some(skel) => skeleton_nodes(skel.bones@, arithmetic.node_transforms@),
        None => Seq::empty(),
    }) + (match mesh_data {
        Some(_) => mesh_nodes(
            document_meshes(mesh_data, skel_data, arithmetic).len(),
            if needs_skin(mesh_data, skel_data) {
                Some(0usize)
            } else {
                None
            },
        ),
        None => Seq::empty(),
    })
}

/// Among the first `upto` bones those without parent, ascending.
pub open spec fn root_bones(bones: Seq<BoneData>, upto: nat) -> Seq<usize>
    decreases upto,
{
    if upto == 0 {
        Seq::empty()
    } else {
        let before = root_bones(bones, (upto - 1) as nat);
        if bones[upto - 1].parent_index is None {
            before.push((upto - 1) as usize)
        } else {
            before
        }
    }
}

/// The numbers from `from` up to `to`, `to` left out.
pub open spec fn count_between(from: nat, to: nat) -> Seq<usize> {
    if to <= from {
        Seq::empty()
    } else {
        Seq::new((to - from) as nat, |i: int| (from + i) as usize)
    }
}

/// The nodes that the scene of an asset shows: the bones without parent,
/// then the nodes of all meshes.
pub open spec fn document_scene_nodes(
    skel_data: Option<&SkelData>,
    node_count: nat,
) -> Seq<usize> {
    match skel_data {
        Some(skel) => root_bones(skel.bones@, skel.bones@.len()) + count_between(
            skel.bones@.len(),
            node_count,
        ),
        None => count_between(0, node_count),
    }
}

/// The layout of an asset is packed.
pub proof fn lemma_document_layout_packed(
    mesh_data: Option<&MeshData>,
    skel_data: Option<&SkelData>,
    arithmetic: GltfArithmetic,
)
    requires
        fits(document_layout(mesh_data, skel_data, arithmetic)),
    ensures
        packed(document_layout(mesh_data, skel_data, arithmetic)),
{
    assert(packed(empty_layout())) by {
        reveal(packed);
    }
    match mesh_data {
        Some(mesh) => {
            let objects = after_objects(
                empty_layout(),
                mesh.objects@,
                skel_data is Some,
                document_skins(mesh, skel_data, arithmetic),
                mesh.objects@.len(),
            );
            lemma_streams_grow(objects);
            lemma_after_objects_packed(
                empty_layout(),
                mesh.objects@,
                skel_data is Some,
                document_skins(mesh, skel_data, arithmetic),
                mesh.objects@.len(),
            );
            lemma_streams_grow(objects);
            if needs_skin(mesh_data, skel_data) {
                lemma_with_matrices_packed(objects, arithmetic.inverse_bind_matrices@);
            }
        },
        None => {
            reveal(packed);
        },
    }
}

fn has_influences(mesh_data: &MeshData) -> (r: bool)
    ensures
        r == any_influences(mesh_data.objects@),
{
    let n = mesh_data.objects.len();
    let mut i: usize = 0;
    while i < n
        invariant
            i <= n,
            n == mesh_data.objects@.len(),
            forall|k: int|
                0 <= k < i ==> (#[trigger] mesh_data.objects@[k]).bone_influences@.len() == 0,
        decreases n - i,
    {
        if mesh_data.objects[i].bone_influences.len() > 0 {
            return true;
        }
        i += 1;
    }
    false
}

fn scene_roots(skel_data: Option<&SkelData>, node_count: usize) -> (r: Vec<usize>)
    ensures
        r@ == document_scene_nodes(skel_data, node_count as nat),
{
    let mut out: Vec<usize> = Vec::new();
    let mut first: usize = 0;
    match skel_data {
        Some(skel) => {
            let n = skel.bones.len();
            let mut i: usize = 0;
            while i < n
                invariant
                    i <= n,
                    n == skel.bones@.len(),
                    out@ == root_bones(skel.bones@, i as nat),
                decreases n - i,
            {
                if skel.bones[i].parent_index.is_none() {
                    out.push(i);
                }
                i += 1;
            }
            first = n;
        },
        None => {},
    }
    let ghost roots = out@;
    let mut i: usize = first;
    proof {
        assert(roots + count_between(first as nat, node_count as nat).take(0) =~= roots);
    }
    while i < node_count
        invariant
            first <= i,
            i <= node_count || first >= node_count,
            first >= node_count ==> i == first,
            out@ == roots + count_between(first as nat, node_count as nat).take(i - first),
        decreases node_count - i,
    {
        out.push(i);
        proof {
            let all = count_between(first as nat, node_count as nat);
            assert(all.take(i - first + 1) =~= all.take(i - first).push(i));
            assert(out@ =~= roots + all.take(i - first + 1));
        }
        i += 1;
    }
    proof {
        let all = count_between(first as nat, node_count as nat);
        if first < node_count {
            assert(all.take(node_count - first) =~= all);
        } else {
            assert(all.take(i - first) =~= all);
        }
    }
    out
}

/// Assembles a glTF asset from a mesh file and a skeleton. The bytes of
/// all streams go into one buffer, which is to be stored as `scene.bin`.
/// Every vertex of an object with a skin is bound to its four strongest
/// influences, strongest first, by the shares of the blend given for it.
pub fn assemble_gltf(
    mesh_data: Option<&MeshData>,
    skel_data: Option<&SkelData>,
    arithmetic: &GltfArithmetic,
) -> (r: Result<GltfDocument, DaeError>)
    ensures
        match r {
            Err(e) => document_fault(mesh_data, skel_data, *arithmetic) == Some(e),
            Ok(doc) => {
                &&& document_fault(mesh_data, skel_data, *arithmetic) is None
                &&& doc.generator@ == "SSBH Editor"@
                &&& doc.version@ == "2.0"@
                &&& layout_of(doc.buffer_data, doc.buffer_views, doc.accessors) == document_layout(
                    mesh_data,
                    skel_data,
                    *arithmetic,
                )
                &&& doc.buffer is Some <==> doc.buffer_data@.len() > 0
                &&& doc.buffer is Some ==> doc.buffer->0.byte_length == doc.buffer_data@.len()
                    && doc.buffer->0.uri@ == "scene.bin"@
                &&& gltf_mesh_models(doc.meshes@) == document_meshes(
                    mesh_data,
                    skel_data,
                    *arithmetic,
                )
                &&& doc.materials@.len() == (if mesh_data is Some {
                    1nat
                } else {
                    0nat
                })
                &&& mesh_data is Some ==> doc.materials@[0].is_default()
                &&& node_models(doc.nodes@) == document_nodes(mesh_data, skel_data, *arithmetic)
                &&& doc.skins@.len() == (if needs_skin(mesh_data, skel_data) {
                    1nat
                } else {
                    0nat
                })
                &&& needs_skin(mesh_data, skel_data) ==> {
                    &&& doc.skins@[0].name@ == "Skeleton"@
                    &&& doc.skins@[0].joints@ == count_up(skel_data->0.bones@.len())
                    &&& doc.skins@[0].inverse_bind_matrices == after_objects(
                        empty_layout(),
                        mesh_data->0.objects@,
                        true,
                        document_skins(mesh_data->0, skel_data, *arithmetic),
                        mesh_data->0.objects@.len(),
                    ).accessors.len()
                }
                &&& doc.scene_nodes@ == document_scene_nodes(skel_data, doc.nodes@.len())
                &&& packed(layout_of(doc.buffer_data, doc.buffer_views, doc.accessors))
            },
        },
{
    let mut buffer_data: Vec<u8> = Vec::new();
    let mut buffer_views: Vec<BufferView> = Vec::new();
    let mut accessors: Vec<Accessor> = Vec::new();
    let mut meshes: Vec<GltfMesh> = Vec::new();
    let mut materials: Vec<GltfMaterial> = Vec::new();
    let mut nodes: Vec<GltfNode> = Vec::new();
    let mut skins: Vec<GltfSkin> = Vec::new();
    proof {
        assert(layout_of(buffer_data, buffer_views, accessors) == empty_layout());
        assert(node_models(nodes@) =~= Seq::<GltfNodeModel>::empty());
        assert(gltf_mesh_models(meshes@) =~= Seq::<GltfMeshModel>::empty());
    }
    match skel_data {
        Some(skel) => {
            match process_skeleton_data(skel, arithmetic.node_transforms.as_slice(), &mut nodes) {
                Err(e) => {
                    return Err(e);
                },
                Ok(_) => {},
            }
        },
        None => {},
    }
    let ghost bone_nodes = node_models(nodes@);
    proof {
        assert(bone_nodes =~= match skel_data {
            Some(skel) => skeleton_nodes(skel.bones@, arithmetic.node_transforms@),
            None => Seq::empty(),
        });
    }
    match mesh_data {
        Some(mesh) => {
            let mesh_count = match process_mesh_data(
                mesh,
                skel_data,
                arithmetic.blends.as_slice(),
                &mut buffer_data,
                &mut buffer_views,
                &mut accessors,
                &mut meshes,
                &mut materials,
            ) {
                Err(e) => {
                    return Err(e);
                },
                Ok(count) => count,
            };
            proof {
                assert(gltf_mesh_models(meshes@) =~= document_meshes(
                    mesh_data,
                    skel_data,
                    *arithmetic,
                ));
            }
            let skin_index = match skel_data {
                Some(skel) => {
                    if has_influences(mesh) {
                        match create_skin(
                            skel,
                            arithmetic.inverse_bind_matrices.as_slice(),
                            &mut buffer_data,
                            &mut buffer_views,
                            &mut accessors,
                            &mut skins,
                        ) {
                            Err(e) => {
                                return Err(e);
                            },
                            Ok(index) => Some(index),
                        }
                    } else {
                        None
                    }
                },
                None => None,
            };
            create_mesh_nodes(mesh_count, skin_index, &mut nodes);
        },
        None => {
            proof {
                assert(bone_nodes + Seq::<GltfNodeModel>::empty() =~= bone_nodes);
            }
        },
    }
    let buffer = if buffer_data.len() > 0 {
        Some(GltfBuffer { byte_length: buffer_data.len(), uri: "scene.bin".to_owned() })
    } else {
        None
    };
    let scene_nodes = scene_roots(skel_data, nodes.len());
    proof {
        assert(buffer_views@.len() == buffer_views.len());
        assert(buffer_data@.len() == buffer_data.len());
        assert(fits(layout_of(buffer_data, buffer_views, accessors)));
        lemma_document_layout_packed(mesh_data, skel_data, *arithmetic);
    }
    Ok(
        GltfDocument {
            generator: "SSBH Editor".to_owned(),
            version: "2.0".to_owned(),
            buffer_data,
            buffer,
            buffer_views,
            accessors,
            meshes,
            materials,
            nodes,
            skins,
            scene_nodes,
        },
    )
}

} // verus!
