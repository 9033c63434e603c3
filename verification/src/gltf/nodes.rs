//! The nodes of a glTF asset: one per bone, one per mesh, and the skin that
//! binds the two.

use vstd::prelude::*;
use crate::error::DaeError;
use crate::gltf::buffer::{create_mat4_accessor, Accessor, BufferView};
use crate::gltf::layout::{layout_of, with_matrices};
use crate::records::{BoneData, SkelData};
use crate::scalar::Scalar;
use crate::text::{decimal_digits, push_decimal};

verus! {

/// Where a node stands: moved, turned and scaled against its parent.
#[derive(Clone, Copy, Debug, PartialEq, Eq)]
pub struct NodeTransform {
    pub translation: [Scalar; 3],
    pub rotation: [Scalar; 4],
    pub scale: [Scalar; 3],
}

/// A node of the asset: a bone with its transform and children, or the
/// place of a mesh.
#[derive(Clone, Debug, PartialEq, Eq)]
pub struct GltfNode {
    pub name: String,
    pub transform: Option<NodeTransform>,
    pub children: Vec<usize>,
    pub mesh: Option<usize>,
    pub skin: Option<usize>,
}

/// A node as plain values.
pub struct GltfNodeModel {
    pub name: Seq<char>,
    pub transform: Option<NodeTransform>,
    pub children: Seq<usize>,
    pub mesh: Option<usize>,
    pub skin: Option<usize>,
}

impl GltfNode {
    /// The node as plain values.
    pub open spec fn model(self) -> GltfNodeModel {
        GltfNodeModel {
            name: self.name@,
            transform: self.transform,
            children: self.children@,
            mesh: self.mesh,
            skin: self.skin,
        }
    }
}

/// A list of nodes as plain values.
pub open spec fn node_models(list: Seq<GltfNode>) -> Seq<GltfNodeModel> {
    list.map_values(|n: GltfNode| n.model())
}

/// Among the first `upto` bones those whose parent is the bone `parent`,
/// ascending.
pub open spec fn children_of(bones: Seq<BoneData>, parent: usize, upto: nat) -> Seq<usize>
    decreases upto,
{
    if upto == 0 {
        Seq::empty()
    } else {
        let before = children_of(bones, parent, (upto - 1) as nat);
        if bones[upto - 1].parent_index == Some(parent) {
            before.push((upto - 1) as usize)
        } else {
            before
        }
    }
}

/// The node of the bone at position `i`.
pub open spec fn bone_node(bones: Seq<BoneData>, transforms: Seq<NodeTransform>, i: int) -> GltfNodeModel {
    GltfNodeModel {
        name: bones[i].name@,
        transform: Some(transforms[i]),
        children: children_of(bones, i as usize, bones.len()),
        mesh: None,
        skin: None,
    }
}

/// The nodes of a skeleton, one per bone.
pub open spec fn skeleton_nodes(bones: Seq<BoneData>, transforms: Seq<NodeTransform>) -> Seq<
    GltfNodeModel,
> {
    Seq::new(bones.len(), |i: int| bone_node(bones, transforms, i))
}

fn find_children(bones: &Vec<BoneData>, parent: usize) -> (r: Vec<usize>)
    ensures
        r@ == children_of(bones@, parent, bones@.len()),
{
    let mut out: Vec<usize> = Vec::new();
    let n = bones.len();
    let mut i: usize = 0;
    while i < n
        invariant
            i <= n,
            n == bones@.len(),
            out@ == children_of(bones@, parent, i as nat),
        decreases n - i,
    {
        match bones[i].parent_index {
            Some(p) => {
                if p == parent {
                    out.push(i);
                }
            },
            None => {},
        }
        i += 1;
    }
    out
}

/// Adds a node for each bone of a skeleton: its name, the transform that
/// the caller gives for it in `transforms`, and its children by position.
///
/// Where `transforms` is not one entry per bone nothing is changed.
pub fn process_skeleton_data(
    skel_data: &SkelData,
    transforms: &[NodeTransform],
    nodes: &mut Vec<GltfNode>,
) -> (r: Result<(), DaeError>)
    ensures
        r is Ok <==> transforms@.len() == skel_data.bones@.len(),
        r is Err ==> r == Err::<(), DaeError>(
            DaeError::TransformsMismatch {
                bones: skel_data.bones@.len() as usize,
                transforms: transforms@.len() as usize,
            },
        ) && *final(nodes) == *old(nodes),
        r is Ok ==> node_models(final(nodes)@) == node_models(old(nodes)@) + skeleton_nodes(
            skel_data.bones@,
            transforms@,
        ),
{
    let n = skel_data.bones.len();
    if transforms.len() != n {
        return Err(DaeError::TransformsMismatch { bones: n, transforms: transforms.len() });
    }
    let ghost before = node_models(nodes@);
    let ghost want = skeleton_nodes(skel_data.bones@, transforms@);
    let mut i: usize = 0;
    proof {
        assert(before + want.take(0) =~= before);
    }
    while i < n
        invariant
            i <= n,
            n == skel_data.bones@.len(),
            n == transforms@.len(),
            want == skeleton_nodes(skel_data.bones@, transforms@),
            node_models(nodes@) == before + want.take(i as int),
        decreases n - i,
    {
        let node = GltfNode {
            name: skel_data.bones[i].name.clone(),
            transform: Some(transforms[i]),
            children: find_children(&skel_data.bones, i),
            mesh: None,
            skin: None,
        };
        proof {
            assert(node.model() == want[i as int]);
            assert(node_models(nodes@.push(node)) =~= node_models(nodes@).push(node.model()));
            assert((before + want.take(i as int)).push(want[i as int]) =~= before + want.take(
                i + 1,
            ));
        }
        nodes.push(node);
        i += 1;
    }
    proof {
        assert(want.take(n as int) =~= want);
    }
    Ok(())
}

/// The name of the node of the mesh at position `i`.
pub open spec fn mesh_node_name(i: nat) -> Seq<char> {
    "MeshNode_"@ + decimal_digits(i)
}

/// The nodes of `mesh_count` meshes: the node at position `i` shows the
/// mesh `i`, with the skin if there is one.
pub open spec fn mesh_nodes(mesh_count: nat, skin_index: Option<usize>) -> Seq<GltfNodeModel> {
    Seq::new(
        mesh_count,
        |i: int|
            GltfNodeModel {
                name: mesh_node_name(i as nat),
                transform: None,
                children: Seq::empty(),
                mesh: Some(i as usize),
                skin: skin_index,
            },
    )
}

/// Adds a node for each of `mesh_count` meshes.
pub fn create_mesh_nodes(mesh_count: usize, skin_index: Option<usize>, nodes: &mut Vec<GltfNode>)
    ensures
        node_models(final(nodes)@) == node_models(old(nodes)@) + mesh_nodes(
            mesh_count as nat,
            skin_index,
        ),
{
    let ghost before = node_models(nodes@);
    let ghost want = mesh_nodes(mesh_count as nat, skin_index);
    let mut i: usize = 0;
    proof {
        assert(before + want.take(0) =~= before);
    }
    while i < mesh_count
        invariant
            i <= mesh_count,
            want == mesh_nodes(mesh_count as nat, skin_index),
            node_models(nodes@) == before + want.take(i as int),
        decreases mesh_count - i,
    {
        let mut name = "MeshNode_".to_owned();
        push_decimal(&mut name, i as u64);
        let node = GltfNode {
            name,
            transform: None,
            children: Vec::new(),
            mesh: Some(i),
            skin: skin_index,
        };
        proof {
            assert(node.model().children =~= Seq::<usize>::empty());
            assert(node.model() == want[i as int]);
            assert(node_models(nodes@.push(node)) =~= node_models(nodes@).push(node.model()));
            assert((before + want.take(i as int)).push(want[i as int]) =~= before + want.take(
                i + 1,
            ));
        }
        nodes.push(node);
        i += 1;
    }
    proof {
        assert(want.take(mesh_count as int) =~= want);
    }
}

/// The skin of the asset: the accessor of its inverse bind matrices, and
/// its joints by node.
#[derive(Clone, Debug, PartialEq, Eq)]
pub struct GltfSkin {
    pub name: String,
    pub inverse_bind_matrices: usize,
    pub joints: Vec<usize>,
}

/// The numbers from 0 up to `n`, `n` left out.
pub open spec fn count_up(n: nat) -> Seq<usize> {
    Seq::new(n, |i: int| i as usize)
}

/// Adds the skin of a skeleton: its inverse bind matrices, which the caller
/// gives bone by bone, go into the buffer as a stream; its joints are the
/// nodes of the bones. Returns the position of the skin.
///
/// Where `inverse_bind_matrices` is not one matrix per bone nothing is
/// changed.
pub fn create_skin(
    skel_data: &SkelData,
    inverse_bind_matrices: &[[Scalar; 16]],
    buffer_data: &mut Vec<u8>,
    buffer_views: &mut Vec<BufferView>,
    accessors: &mut Vec<Accessor>,
    skins: &mut Vec<GltfSkin>,
) -> (r: Result<usize, DaeError>)
    ensures
        r is Ok <==> inverse_bind_matrices@.len() == skel_data.bones@.len(),
        r is Err ==> {
            &&& r == Err::<usize, DaeError>(
                DaeError::MatricesMismatch {
                    bones: skel_data.bones@.len() as usize,
                    matrices: inverse_bind_matrices@.len() as usize,
                },
            )
            &&& *final(buffer_data) == *old(buffer_data)
            &&& *final(buffer_views) == *old(buffer_views)
            &&& *final(accessors) == *old(accessors)
            &&& *final(skins) == *old(skins)
        },
        r is Ok ==> {
            &&& layout_of(*final(buffer_data), *final(buffer_views), *final(accessors))
                == with_matrices(
                layout_of(*old(buffer_data), *old(buffer_views), *old(accessors)),
                inverse_bind_matrices@,
            )
            &&& final(skins)@.len() == old(skins)@.len() + 1
            &&& final(skins)@.drop_last() == old(skins)@
            &&& final(skins)@.last().name@ == "Skeleton"@
            &&& final(skins)@.last().inverse_bind_matrices == old(accessors)@.len()
            &&& final(skins)@.last().joints@ == count_up(skel_data.bones@.len())
            &&& r->Ok_0 == old(skins)@.len()
        },
{
    let n = skel_data.bones.len();
    if inverse_bind_matrices.len() != n {
        return Err(
            DaeError::MatricesMismatch { bones: n, matrices: inverse_bind_matrices.len() },
        );
    }
    let accessor = create_mat4_accessor(inverse_bind_matrices, buffer_data, buffer_views, accessors);
    let mut joints: Vec<usize> = Vec::new();
    let mut i: usize = 0;
    while i < n
        invariant
            i <= n,
            joints@.len() == i,
            forall|k: int| 0 <= k < i ==> joints@[k] == k,
        decreases n - i,
    {
        joints.push(i);
        i += 1;
    }
    proof {
        assert(joints@ =~= count_up(n as nat));
    }
    let index = skins.len();
    let ghost old_skins = skins@;
    skins.push(GltfSkin { name: "Skeleton".to_owned(), inverse_bind_matrices: accessor, joints });
    proof {
        assert(skins@.drop_last() =~= old_skins);
    }
    Ok(index)
}

} // verus!
