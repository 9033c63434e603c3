//! Mesh objects as glTF meshes: every object with positions is laid out in
//! the buffer, stream by stream, and described by one primitive.

use vstd::prelude::*;
use crate::error::DaeError;
use crate::gltf::buffer::{
    create_indices_accessor,
    create_joints_accessor,
    create_vec2_accessor,
    create_vec3_accessor,
    create_weights_accessor,
    Accessor,
    BufferView,
};
use crate::gltf::layout::{
    fits,
    layout_of,
    lemma_streams_grow,
    lemma_with_indices_packed,
    lemma_with_skin_packed,
    lemma_with_vec2s_packed,
    lemma_with_vec3s_packed,
    packed,
    with_indices,
    with_skin,
    with_vec2s,
    with_vec3s,
    Layout,
};
use crate::gltf::skin::{
    bind_object,
    blends_fit,
    bound_skin,
    influence_lists,
    object_influences,
    select_influences,
    SkinModel,
    SkinStreams,
    VertexBlend,
};
use crate::records::{
    as_vec2,
    as_vec3,
    convert_vector_data_to_vec2,
    convert_vector_data_to_vec3,
    BoneData,
    MeshData,
    MeshObjectData,
    SkelData,
};
use crate::scalar::{one_bits, zero_bits, Scalar};

verus! {

/// The accessors of the one primitive of a mesh, by position, and its
/// material.
#[derive(Clone, Copy, Debug, PartialEq, Eq, Structural)]
pub struct Primitive {
    pub position: usize,
    pub normal: Option<usize>,
    pub texcoord: Option<usize>,
    pub joints: Option<usize>,
    pub weights: Option<usize>,
    pub indices: Option<usize>,
    pub material: usize,
}

/// A mesh of the asset: a name and one primitive of triangles.
#[derive(Clone, Debug, PartialEq, Eq)]
pub struct GltfMesh {
    pub name: String,
    pub primitive: Primitive,
}

/// A mesh of the asset as plain values.
pub struct GltfMeshModel {
    pub name: Seq<char>,
    pub primitive: Primitive,
}

impl GltfMesh {
    /// The mesh as plain values.
    pub open spec fn model(self) -> GltfMeshModel {
        GltfMeshModel { name: self.name@, primitive: self.primitive }
    }
}

/// A list of meshes as plain values.
pub open spec fn gltf_mesh_models(list: Seq<GltfMesh>) -> Seq<GltfMeshModel> {
    list.map_values(|m: GltfMesh| m.model())
}

/// The layout after the positions of an object.
pub open spec fn after_positions(l: Layout, o: MeshObjectData) -> Layout {
    with_vec3s(l, as_vec3(o.positions@[0].data.model()), true)
}

/// The layout after the positions and normals of an object.
pub open spec fn after_normals(l: Layout, o: MeshObjectData) -> Layout {
    let before = after_positions(l, o);
    if o.normals@.len() > 0 {
        with_vec3s(before, as_vec3(o.normals@[0].data.model()), false)
    } else {
        before
    }
}

/// The layout after the positions, normals and texture coordinates of an
/// object.
pub open spec fn after_texcoords(l: Layout, o: MeshObjectData) -> Layout {
    let before = after_normals(l, o);
    if o.texture_coordinates@.len() > 0 {
        with_vec2s(before, as_vec2(o.texture_coordinates@[0].data.model()))
    } else {
        before
    }
}

/// The layout after the vertex attributes of an object, its skin included
/// if it is skinned.
pub open spec fn after_skin(l: Layout, o: MeshObjectData, skinned: bool, skin: SkinModel) -> Layout {
    let before = after_texcoords(l, o);
    if skinned {
        with_skin(before, skin.joints, skin.weights)
    } else {
        before
    }
}

/// The layout after all streams of an object with positions: positions,
/// then normals, texture coordinates, joints and weights, and indices, each
/// if the object has it.
pub open spec fn after_object(l: Layout, o: MeshObjectData, skinned: bool, skin: SkinModel) -> Layout {
    let before = after_skin(l, o, skinned, skin);
    if o.vertex_indices@.len() > 0 {
        with_indices(before, o.vertex_indices@)
    } else {
        before
    }
}

/// The primitive of an object with positions that is laid out after `l`.
pub open spec fn object_primitive(
    l: Layout,
    o: MeshObjectData,
    skinned: bool,
    skin: SkinModel,
) -> Primitive {
    Primitive {
        position: l.accessors.len() as usize,
        normal: if o.normals@.len() > 0 {
            Some(after_positions(l, o).accessors.len() as usize)
        } else {
            None
        },
        texcoord: if o.texture_coordinates@.len() > 0 {
            Some(after_normals(l, o).accessors.len() as usize)
        } else {
            None
        },
        joints: if skinned {
            Some(after_texcoords(l, o).accessors.len() as usize)
        } else {
            None
        },
        weights: if skinned {
            Some((after_texcoords(l, o).accessors.len() + 1) as usize)
        } else {
            None
        },
        indices: if o.vertex_indices@.len() > 0 {
            Some(after_skin(l, o, skinned, skin).accessors.len() as usize)
        } else {
            None
        },
        material: 0,
    }
}

/// Whether an object gets a skin: it has influences, and there is a
/// skeleton.
pub open spec fn is_skinned(o: MeshObjectData, with_skeleton: bool) -> bool {
    o.bone_influences@.len() > 0 && with_skeleton
}

/// The layout after the first `upto` objects. Objects without positions
/// are passed over.
pub open spec fn after_objects(
    l: Layout,
    objects: Seq<MeshObjectData>,
    with_skeleton: bool,
    skins: Seq<SkinModel>,
    upto: nat,
) -> Layout
    decreases upto,
{
    if upto == 0 {
        l
    } else {
        let before = after_objects(l, objects, with_skeleton, skins, (upto - 1) as nat);
        let o = objects[upto - 1];
        if o.positions@.len() > 0 {
            after_object(before, o, is_skinned(o, with_skeleton), skins[upto - 1])
        } else {
            before
        }
    }
}

/// The meshes of the first `upto` objects, one for each object with
/// positions.
pub open spec fn meshes_of_objects(
    l: Layout,
    objects: Seq<MeshObjectData>,
    with_skeleton: bool,
    skins: Seq<SkinModel>,
    upto: nat,
) -> Seq<GltfMeshModel>
    decreases upto,
{
    if upto == 0 {
        Seq::empty()
    } else {
        let meshes = meshes_of_objects(l, objects, with_skeleton, skins, (upto - 1) as nat);
        let before = after_objects(l, objects, with_skeleton, skins, (upto - 1) as nat);
        let o = objects[upto - 1];
        if o.positions@.len() > 0 {
            meshes.push(
                GltfMeshModel {
                    name: o.name@,
                    primitive: object_primitive(
                        before,
                        o,
                        is_skinned(o, with_skeleton),
                        skins[upto - 1],
                    ),
                },
            )
        } else {
            meshes
        }
    }
}

/// A layout never shrinks when an object is laid out.
pub proof fn lemma_after_object_grows(l: Layout, o: MeshObjectData, skinned: bool, skin: SkinModel)
    ensures
        l.data.len() <= after_positions(l, o).data.len() <= after_normals(l, o).data.len()
            <= after_texcoords(l, o).data.len() <= after_skin(l, o, skinned, skin).data.len()
            <= after_object(l, o, skinned, skin).data.len(),
        l.views.len() <= after_positions(l, o).views.len() <= after_normals(l, o).views.len()
            <= after_texcoords(l, o).views.len() <= after_skin(l, o, skinned, skin).views.len()
            <= after_object(l, o, skinned, skin).views.len(),
{
    lemma_streams_grow(l);
    lemma_streams_grow(after_positions(l, o));
    lemma_streams_grow(after_normals(l, o));
    lemma_streams_grow(after_texcoords(l, o));
    lemma_streams_grow(after_skin(l, o, skinned, skin));
}

/// An object laid out after a packed layout leaves it packed.
pub proof fn lemma_after_object_packed(l: Layout, o: MeshObjectData, skinned: bool, skin: SkinModel)
    requires
        packed(l),
        fits(after_object(l, o, skinned, skin)),
    ensures
        packed(after_object(l, o, skinned, skin)),
{
    lemma_after_object_grows(l, o, skinned, skin);
    lemma_with_vec3s_packed(l, as_vec3(o.positions@[0].data.model()), true);
    if o.normals@.len() > 0 {
        lemma_with_vec3s_packed(after_positions(l, o), as_vec3(o.normals@[0].data.model()), false);
    }
    if o.texture_coordinates@.len() > 0 {
        lemma_with_vec2s_packed(
            after_normals(l, o),
            as_vec2(o.texture_coordinates@[0].data.model()),
        );
    }
    if skinned {
        lemma_with_skin_packed(after_texcoords(l, o), skin.joints, skin.weights);
    }
    if o.vertex_indices@.len() > 0 {
        lemma_with_indices_packed(after_skin(l, o, skinned, skin), o.vertex_indices@);
    }
}

/// A layout never shrinks when objects are laid out.
pub proof fn lemma_after_objects_grow(
    l: Layout,
    objects: Seq<MeshObjectData>,
    with_skeleton: bool,
    skins: Seq<SkinModel>,
    upto: nat,
)
    ensures
        l.data.len() <= after_objects(l, objects, with_skeleton, skins, upto).data.len(),
        l.views.len() <= after_objects(l, objects, with_skeleton, skins, upto).views.len(),
    decreases upto,
{
    if upto > 0 {
        lemma_after_objects_grow(l, objects, with_skeleton, skins, (upto - 1) as nat);
        let before = after_objects(l, objects, with_skeleton, skins, (upto - 1) as nat);
        let o = objects[upto - 1];
        lemma_after_object_grows(before, o, is_skinned(o, with_skeleton), skins[upto - 1]);
    }
}

/// Objects laid out after a packed layout leave it packed.
pub proof fn lemma_after_objects_packed(
    l: Layout,
    objects: Seq<MeshObjectData>,
    with_skeleton: bool,
    skins: Seq<SkinModel>,
    upto: nat,
)
    requires
        packed(l),
        fits(after_objects(l, objects, with_skeleton, skins, upto)),
    ensures
        packed(after_objects(l, objects, with_skeleton, skins, upto)),
    decreases upto,
{
    if upto > 0 {
        let before = after_objects(l, objects, with_skeleton, skins, (upto - 1) as nat);
        let o = objects[upto - 1];
        lemma_after_object_grows(before, o, is_skinned(o, with_skeleton), skins[upto - 1]);
        lemma_after_objects_packed(l, objects, with_skeleton, skins, (upto - 1) as nat);
        if o.positions@.len() > 0 {
            lemma_after_object_packed(before, o, is_skinned(o, with_skeleton), skins[upto - 1]);
        }
    }
}

/// Lays out one object with positions and returns its primitive.
fn process_object(
    object: &MeshObjectData,
    skinned: bool,
    skin: &SkinStreams,
    buffer_data: &mut Vec<u8>,
    buffer_views: &mut Vec<BufferView>,
    accessors: &mut Vec<Accessor>,
) -> (r: Primitive)
    requires
        object.positions@.len() > 0,
    ensures
        layout_of(*final(buffer_data), *final(buffer_views), *final(accessors)) == after_object(
            layout_of(*old(buffer_data), *old(buffer_views), *old(accessors)),
            *object,
            skinned,
            skin.model(),
        ),
        r == object_primitive(
            layout_of(*old(buffer_data), *old(buffer_views), *old(accessors)),
            *object,
            skinned,
            skin.model(),
        ),
{
    let ghost l0 = layout_of(*buffer_data, *buffer_views, *accessors);
    proof {
        reveal_strlit("NORMAL");
        reveal_strlit("POSITION");
        assert("NORMAL"@.len() != "POSITION"@.len());
    }
    let positions = convert_vector_data_to_vec3(&object.positions[0].data);
    let position = create_vec3_accessor(
        positions.as_slice(),
        buffer_data,
        buffer_views,
        accessors,
        "POSITION",
    );
    proof {
        assert(layout_of(*buffer_data, *buffer_views, *accessors) == after_positions(l0, *object));
    }
    let normal = if object.normals.len() > 0 {
        let normals = convert_vector_data_to_vec3(&object.normals[0].data);
        Some(create_vec3_accessor(normals.as_slice(), buffer_data, buffer_views, accessors, "NORMAL"))
    } else {
        None
    };
    proof {
        assert(layout_of(*buffer_data, *buffer_views, *accessors) == after_normals(l0, *object));
    }
    let texcoord = if object.texture_coordinates.len() > 0 {
        let coordinates = convert_vector_data_to_vec2(&object.texture_coordinates[0].data);
        Some(create_vec2_accessor(coordinates.as_slice(), buffer_data, buffer_views, accessors))
    } else {
        None
    };
    proof {
        assert(layout_of(*buffer_data, *buffer_views, *accessors) == after_texcoords(l0, *object));
    }
    let mut joints: Option<usize> = None;
    let mut weights: Option<usize> = None;
    if skinned {
        joints =
        Some(create_joints_accessor(skin.joints.as_slice(), buffer_data, buffer_views, accessors));
        weights =
        Some(create_weights_accessor(skin.weights.as_slice(), buffer_data, buffer_views, accessors));
    }
    proof {
        assert(layout_of(*buffer_data, *buffer_views, *accessors) == after_skin(
            l0,
            *object,
            skinned,
            skin.model(),
        ));
    }
    let indices = if object.vertex_indices.len() > 0 {
        Some(
            create_indices_accessor(
                object.vertex_indices.as_slice(),
                buffer_data,
                buffer_views,
                accessors,
            ),
        )
    } else {
        None
    };
    Primitive { position, normal, texcoord, joints, weights, indices, material: 0 }
}

/// A material of the asset: a base colour, metallic and roughness
/// factors, an emissive colour. It is opaque.
#[derive(Clone, Debug, PartialEq, Eq)]
pub struct GltfMaterial {
    pub name: String,
    pub base_color_factor: [Scalar; 4],
    pub metallic_factor: Scalar,
    pub roughness_factor: Scalar,
    pub emissive_factor: [Scalar; 3],
    pub double_sided: bool,
}

impl GltfMaterial {
    /// The one material that every mesh is given: white, rough, without
    /// metal or glow, single-sided.
    pub open spec fn is_default(self) -> bool {
        let o = Scalar { bits: one_bits() };
        let n = Scalar { bits: zero_bits() };
        &&& self.name@ == "DefaultMaterial"@
        &&& self.base_color_factor == [o, o, o, o]
        &&& self.metallic_factor == n
        &&& self.roughness_factor == o
        &&& self.emissive_factor == [n, n, n]
        &&& !self.double_sided
    }
}

fn default_material() -> (r: GltfMaterial)
    ensures
        r.is_default(),
{
    let o = Scalar::one();
    let n = Scalar::zero();
    GltfMaterial {
        name: "DefaultMaterial".to_owned(),
        base_color_factor: [o, o, o, o],
        metallic_factor: n,
        roughness_factor: o,
        emissive_factor: [n, n, n],
        double_sided: false,
    }
}

/// The bones of a skeleton that may be missing.
pub open spec fn bones_of(skel_data: Option<&SkelData>) -> Seq<BoneData> {
    match skel_data {
        Some(skel) => skel.bones@,
        None => Seq::empty(),
    }
}

/// Lists of blends as plain values.
pub open spec fn blend_lists(list: Seq<Vec<VertexBlend>>) -> Seq<Seq<VertexBlend>> {
    list.map_values(|l: Vec<VertexBlend>| l@)
}

/// For each object its joints and weights: every vertex bound to its four
/// strongest influences by the shares given for it.
pub open spec fn bound_skins(
    objects: Seq<MeshObjectData>,
    bones: Seq<BoneData>,
    blends: Seq<Seq<VertexBlend>>,
) -> Seq<SkinModel> {
    Seq::new(objects.len(), |i: int| bound_skin(objects[i], bones, blends[i]))
}

/// Whether the object at position `i` is laid out with a skin for which
/// the blends do not fit: it has positions and influences, there is a
/// skeleton, and there is not one blend for each of its vertices.
pub open spec fn misfit(
    objects: Seq<MeshObjectData>,
    skel_data: Option<&SkelData>,
    blends: Seq<Seq<VertexBlend>>,
    i: int,
) -> bool {
    objects[i].positions@.len() > 0 && is_skinned(objects[i], skel_data is Some) && !blends_fit(
        objects[i],
        bones_of(skel_data),
        blends[i],
    )
}

/// The position of the first of the first `upto` objects whose blends do
/// not fit.
pub open spec fn first_misfit(
    objects: Seq<MeshObjectData>,
    skel_data: Option<&SkelData>,
    blends: Seq<Seq<VertexBlend>>,
    upto: nat,
) -> Option<int>
    decreases upto,
{
    if upto == 0 {
        None
    } else {
        match first_misfit(objects, skel_data, blends, (upto - 1) as nat) {
            Some(i) => Some(i),
            None => if misfit(objects, skel_data, blends, upto - 1) {
                Some(upto - 1)
            } else {
                None
            },
        }
    }
}

/// What keeps the objects of a mesh file from being laid out, if anything:
/// lists of blends that are not one per object, or a skinned object with
/// blends that are not one per vertex.
pub open spec fn mesh_data_fault(
    objects: Seq<MeshObjectData>,
    skel_data: Option<&SkelData>,
    blends: Seq<Seq<VertexBlend>>,
) -> Option<DaeError> {
    if blends.len() != objects.len() {
        Some(
            DaeError::BlendListsMismatch {
                objects: objects.len() as usize,
                lists: blends.len() as usize,
            },
        )
    } else {
        match first_misfit(objects, skel_data, blends, objects.len()) {
            Some(i) => Some(
                DaeError::BlendsMismatch {
                    object_index: i as usize,
                    vertices: object_influences(objects[i], bones_of(skel_data)).len() as usize,
                    blends: blends[i].len() as usize,
                },
            ),
            None => None,
        }
    }
}

/// A misfit among some objects is the first misfit among more.
proof fn lemma_first_misfit_kept(
    objects: Seq<MeshObjectData>,
    skel_data: Option<&SkelData>,
    blends: Seq<Seq<VertexBlend>>,
    a: nat,
    b: nat,
)
    requires
        a <= b,
        first_misfit(objects, skel_data, blends, a) is Some,
    ensures
        first_misfit(objects, skel_data, blends, b) == first_misfit(objects, skel_data, blends, a),
    decreases b - a,
{
    if a < b {
        lemma_first_misfit_kept(objects, skel_data, blends, a, (b - 1) as nat);
    }
}

/// Binds the vertices of every object that is laid out with a skin.
fn bind_objects(mesh_data: &MeshData, skel_data: Option<&SkelData>, blends: &[Vec<VertexBlend>]) -> (r:
    Result<Vec<SkinStreams>, DaeError>)
    requires
        blends@.len() == mesh_data.objects@.len(),
    ensures
        match r {
            Ok(streams) => {
                &&& mesh_data_fault(mesh_data.objects@, skel_data, blend_lists(blends@)) is None
                &&& streams@.len() == mesh_data.objects@.len()
                &&& forall|i: int|
                    0 <= i < streams@.len() && mesh_data.objects@[i].positions@.len() > 0
                        && is_skinned(mesh_data.objects@[i], skel_data is Some) ==> (
                    #[trigger] streams@[i]).model() == bound_skin(
                        mesh_data.objects@[i],
                        bones_of(skel_data),
                        blends@[i]@,
                    )
            },
            Err(e) => mesh_data_fault(mesh_data.objects@, skel_data, blend_lists(blends@)) == Some(
                e,
            ),
        },
{
    let ghost lists = blend_lists(blends@);
    let n = mesh_data.objects.len();
    let mut streams: Vec<SkinStreams> = Vec::new();
    let mut i: usize = 0;
    while i < n
        invariant
            i <= n,
            n == mesh_data.objects@.len(),
            n == blends@.len(),
            lists == blend_lists(blends@),
            streams@.len() == i,
            first_misfit(mesh_data.objects@, skel_data, lists, i as nat) is None,
            forall|k: int|
                0 <= k < i && mesh_data.objects@[k].positions@.len() > 0 && is_skinned(
                    mesh_data.objects@[k],
                    skel_data is Some,
                ) ==> (#[trigger] streams@[k]).model() == bound_skin(
                    mesh_data.objects@[k],
                    bones_of(skel_data),
                    blends@[k]@,
                ),
        decreases n - i,
    {
        let object = &mesh_data.objects[i];
        proof {
            assert(lists[i as int] == blends@[i as int]@);
        }
        let mut bound = SkinStreams { joints: Vec::new(), weights: Vec::new() };
        match skel_data {
            Some(skel) => {
                if object.positions.len() > 0 && object.bone_influences.len() > 0 {
                    match bind_object(object, skel, blends[i].as_slice()) {
                        Some(s) => {
                            bound = s;
                        },
                        None => {
                            let selected = select_influences(object, skel);
                            let vertices = selected.len();
                            proof {
                                assert(influence_lists(selected@).len() == selected@.len());
                                assert(misfit(mesh_data.objects@, skel_data, lists, i as int));
                                lemma_first_misfit_kept(
                                    mesh_data.objects@,
                                    skel_data,
                                    lists,
                                    (i + 1) as nat,
                                    n as nat,
                                );
                            }
                            return Err(
                                DaeError::BlendsMismatch {
                                    object_index: i,
                                    vertices,
                                    blends: blends[i].len(),
                                },
                            );
                        },
                    }
                }
            },
            None => {},
        }
        let ghost before = streams@;
        streams.push(bound);
        proof {
            assert forall|k: int|
                0 <= k < i + 1 && mesh_data.objects@[k].positions@.len() > 0 && is_skinned(
                    mesh_data.objects@[k],
                    skel_data is Some,
                ) implies (#[trigger] streams@[k]).model() == bound_skin(
                mesh_data.objects@[k],
                bones_of(skel_data),
                blends@[k]@,
            ) by {
                if k < i {
                    assert(streams@[k] == before[k]);
                }
            }
        }
        i += 1;
    }
    Ok(streams)
}

/// Lays out the objects of a mesh file and describes each object with
/// positions as a mesh; before that it adds the default material. An
/// object that has influences is laid out with a skin if there is a
/// skeleton: every vertex is bound to its four strongest influences,
/// strongest first, by the shares that `blends` gives for it, and a vertex
/// without a usable influence to the first bone alone. `blends` holds for
/// each object, by position, one blend per vertex. Returns the number of
/// meshes.
///
/// Where the blends do not fit nothing is changed.
pub fn process_mesh_data(
    mesh_data: &MeshData,
    skel_data: Option<&SkelData>,
    blends: &[Vec<VertexBlend>],
    buffer_data: &mut Vec<u8>,
    buffer_views: &mut Vec<BufferView>,
    accessors: &mut Vec<Accessor>,
    meshes: &mut Vec<GltfMesh>,
    materials: &mut Vec<GltfMaterial>,
) -> (r: Result<usize, DaeError>)
    ensures
        match r {
            Err(e) => {
                &&& mesh_data_fault(mesh_data.objects@, skel_data, blend_lists(blends@)) == Some(e)
                &&& *final(buffer_data) == *old(buffer_data)
                &&& *final(buffer_views) == *old(buffer_views)
                &&& *final(accessors) == *old(accessors)
                &&& *final(meshes) == *old(meshes)
                &&& *final(materials) == *old(materials)
            },
            Ok(count) => {
                &&& mesh_data_fault(mesh_data.objects@, skel_data, blend_lists(blends@)) is None
                &&& layout_of(*final(buffer_data), *final(buffer_views), *final(accessors))
                    == after_objects(
                    layout_of(*old(buffer_data), *old(buffer_views), *old(accessors)),
                    mesh_data.objects@,
                    skel_data is Some,
                    bound_skins(mesh_data.objects@, bones_of(skel_data), blend_lists(blends@)),
                    mesh_data.objects@.len(),
                )
                &&& gltf_mesh_models(final(meshes)@) == gltf_mesh_models(old(meshes)@)
                    + meshes_of_objects(
                    layout_of(*old(buffer_data), *old(buffer_views), *old(accessors)),
                    mesh_data.objects@,
                    skel_data is Some,
                    bound_skins(mesh_data.objects@, bones_of(skel_data), blend_lists(blends@)),
                    mesh_data.objects@.len(),
                )
                &&& final(materials)@.len() == old(materials)@.len() + 1
                &&& final(materials)@.last().is_default()
                &&& final(materials)@.drop_last() == old(materials)@
                &&& count == final(meshes)@.len()
            },
        },
{
    let n = mesh_data.objects.len();
    if blends.len() != n {
        return Err(DaeError::BlendListsMismatch { objects: n, lists: blends.len() });
    }
    let streams = match bind_objects(mesh_data, skel_data, blends) {
        Ok(s) => s,
        Err(e) => {
            return Err(e);
        },
    };
    let with_skeleton = skel_data.is_some();
    let ghost skins = bound_skins(mesh_data.objects@, bones_of(skel_data), blend_lists(blends@));
    let ghost l0 = layout_of(*buffer_data, *buffer_views, *accessors);
    let ghost m0 = gltf_mesh_models(meshes@);
    let ghost old_materials = materials@;
    materials.push(default_material());
    proof {
        assert(materials@.drop_last() =~= old_materials);
        assert(m0 + Seq::<GltfMeshModel>::empty() =~= m0);
    }
    let mut i: usize = 0;
    while i < n
        invariant
            i <= n,
            n == mesh_data.objects@.len(),
            n == blends@.len(),
            n == streams@.len(),
            with_skeleton == (skel_data is Some),
            skins == bound_skins(mesh_data.objects@, bones_of(skel_data), blend_lists(blends@)),
            forall|k: int|
                0 <= k < n && mesh_data.objects@[k].positions@.len() > 0 && is_skinned(
                    mesh_data.objects@[k],
                    skel_data is Some,
                ) ==> (#[trigger] streams@[k]).model() == bound_skin(
                    mesh_data.objects@[k],
                    bones_of(skel_data),
                    blends@[k]@,
                ),
            layout_of(*buffer_data, *buffer_views, *accessors) == after_objects(
                l0,
                mesh_data.objects@,
                with_skeleton,
                skins,
                i as nat,
            ),
            gltf_mesh_models(meshes@) == m0 + meshes_of_objects(
                l0,
                mesh_data.objects@,
                with_skeleton,
                skins,
                i as nat,
            ),
        decreases n - i,
    {
        let object = &mesh_data.objects[i];
        if object.positions.len() > 0 {
            let skinned = object.bone_influences.len() > 0 && with_skeleton;
            let ghost before = layout_of(*buffer_data, *buffer_views, *accessors);
            let primitive = process_object(
                object,
                skinned,
                &streams[i],
                buffer_data,
                buffer_views,
                accessors,
            );
            let mesh = GltfMesh { name: object.name.clone(), primitive };
            proof {
                assert(blend_lists(blends@)[i as int] == blends@[i as int]@);
                assert(skins[i as int] == bound_skin(*object, bones_of(skel_data), blends@[i as int]@));
                if skinned {
                    assert(streams@[i as int].model() == skins[i as int]);
                }
                assert(after_object(before, *object, skinned, streams@[i as int].model())
                    == after_object(before, *object, skinned, skins[i as int]));
                assert(object_primitive(before, *object, skinned, streams@[i as int].model())
                    == object_primitive(before, *object, skinned, skins[i as int]));
                let done = meshes_of_objects(
                    l0,
                    mesh_data.objects@,
                    with_skeleton,
                    skins,
                    i as nat,
                );
                assert(gltf_mesh_models(meshes@.push(mesh)) =~= gltf_mesh_models(meshes@).push(
                    mesh.model(),
                ));
                assert((m0 + done).push(mesh.model()) =~= m0 + done.push(mesh.model()));
            }
            meshes.push(mesh);
        }
        i += 1;
    }
    Ok(meshes.len())
}

} // verus!
