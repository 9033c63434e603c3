//! The assembler for the binary model format: it fills the records of a
//! skeleton, a model and a mesh file from a scene.

use vstd::prelude::*;
use crate::bind_pose::parents_before;
use crate::error::{DaeError, OutputKind};
use crate::files::{file_name, output_file_name};
use crate::lists::{copy_list, repeat, repeated};
use crate::model::{
    identity,
    identity_transform,
    DaeBone,
    DaeBoneInfluence,
    DaeConvertConfig,
    DaeMesh,
    DaeVertexWeight,
    Mat4,
    UpAxisConversion,
    Vec2,
    Vec3,
};
use crate::read::hierarchy::{bone_models, parents_precede};
use crate::records::{
    bone_influence_models,
    mesh_object_models,
    AttributeData,
    AttributeModel,
    BillboardType,
    BoneData,
    BoneInfluence,
    BoneInfluenceModel,
    MeshData,
    MeshObjectData,
    MeshObjectModel,
    ModlData,
    ModlEntryData,
    SkelData,
    VectorData,
    VectorModel,
    VertexWeight,
};
use crate::scalar::{one_bits, zero_bits, Scalar};
use crate::text::{
    lemma_text_less_total,
    lemma_text_less_transitive,
    text_before,
    text_eq,
    text_less,
    texts,
};
use crate::transform::{
    all_converted,
    apply_normal_transforms,
    apply_transforms,
    convert_matrix,
    converted_matrix,
};

verus! {

/// How many of the leading entries of `list` stand before `name`.
pub open spec fn leading_before(list: Seq<Seq<char>>, name: Seq<char>) -> nat
    decreases list.len(),
{
    if list.len() == 0 || !text_less(list[0], name) {
        0
    } else {
        1 + leading_before(list.drop_first(), name)
    }
}

/// An ascending list with `name` put in its place, unless it is there.
pub open spec fn with_name(list: Seq<Seq<char>>, name: Seq<char>) -> Seq<Seq<char>> {
    let p = leading_before(list, name) as int;
    if p < list.len() && list[p] == name {
        list
    } else {
        list.insert(p, name)
    }
}

/// The different names among `names`, in dictionary order.
pub open spec fn sorted_names(names: Seq<Seq<char>>) -> Seq<Seq<char>>
    decreases names.len(),
{
    if names.len() == 0 {
        Seq::empty()
    } else {
        with_name(sorted_names(names.drop_last()), names.last())
    }
}

/// Each entry stands before the next.
pub open spec fn ascending(list: Seq<Seq<char>>) -> bool {
    forall|i: int, j: int| 0 <= i < j < list.len() ==> text_less(list[i], list[j])
}

proof fn lemma_leading_before(list: Seq<Seq<char>>, name: Seq<char>)
    ensures
        leading_before(list, name) <= list.len(),
        forall|k: int| 0 <= k < leading_before(list, name) ==> text_less(list[k], name),
        leading_before(list, name) < list.len() ==> !text_less(
            list[leading_before(list, name) as int],
            name,
        ),
    decreases list.len(),
{
    if list.len() == 0 || !text_less(list[0], name) {
    } else {
        let rest = list.drop_first();
        lemma_leading_before(rest, name);
        assert forall|k: int| 0 <= k < leading_before(list, name) implies text_less(
            list[k],
            name,
        ) by {
            if k > 0 {
                assert(list[k] == rest[k - 1]);
            }
        }
        if leading_before(list, name) < list.len() {
            assert(list[leading_before(list, name) as int] == rest[leading_before(rest, name) as int]);
        }
    }
}

/// Putting a name into an ascending list leaves it ascending, with the same
/// names and the new one.
pub proof fn lemma_with_name(list: Seq<Seq<char>>, name: Seq<char>)
    requires
        ascending(list),
    ensures
        ascending(with_name(list, name)),
        forall|x: Seq<char>|
            with_name(list, name).contains(x) <==> (list.contains(x) || x == name),
{
    lemma_leading_before(list, name);
    let p = leading_before(list, name) as int;
    let r = with_name(list, name);
    if p < list.len() && list[p] == name {
        assert forall|x: Seq<char>| r.contains(x) <==> (list.contains(x) || x == name) by {
            if x == name {
                assert(list[p] == x);
            }
        }
    } else {
        assert forall|i: int, j: int| 0 <= i < j < r.len() implies text_less(r[i], r[j]) by {
            if j < p {
                assert(r[i] == list[i] && r[j] == list[j]);
            } else if j == p {
                assert(r[i] == list[i]);
            } else if i == p {
                assert(r[j] == list[j - 1]);
                lemma_text_less_total(name, list[p]);
                if j - 1 > p {
                    assert(text_less(list[p], list[j - 1]));
                    lemma_text_less_transitive(name, list[p], list[j - 1]);
                }
            } else if i < p {
                assert(r[i] == list[i] && r[j] == list[j - 1]);
            } else {
                assert(r[i] == list[i - 1] && r[j] == list[j - 1]);
            }
        }
        assert forall|x: Seq<char>| r.contains(x) <==> (list.contains(x) || x == name) by {
            if r.contains(x) {
                let k = choose|k: int| 0 <= k < r.len() && r[k] == x;
                if k < p {
                    assert(list[k] == x);
                } else if k > p {
                    assert(list[k - 1] == x);
                }
            }
            if list.contains(x) {
                let k = choose|k: int| 0 <= k < list.len() && list[k] == x;
                if k < p {
                    assert(r[k] == x);
                } else {
                    assert(r[k + 1] == x);
                }
            }
            if x == name {
                assert(r[p] == x);
            }
        }
    }
}

/// The sorted names are ascending, so none occurs twice, and they are the
/// names given.
pub proof fn lemma_sorted_names(names: Seq<Seq<char>>)
    ensures
        ascending(sorted_names(names)),
        forall|x: Seq<char>| sorted_names(names).contains(x) <==> names.contains(x),
    decreases names.len(),
{
    if names.len() > 0 {
        let front = names.drop_last();
        lemma_sorted_names(front);
        lemma_with_name(sorted_names(front), names.last());
        assert forall|x: Seq<char>| sorted_names(names).contains(x) <==> names.contains(x) by {
            if names.contains(x) {
                let k = choose|k: int| 0 <= k < names.len() && names[k] == x;
                if k < names.len() - 1 {
                    assert(front[k] == x);
                }
            }
            if front.contains(x) {
                let k = choose|k: int| 0 <= k < front.len() && front[k] == x;
                assert(names[k] == x);
            }
            if x == names.last() {
                assert(names[names.len() - 1] == x);
            }
        }
    }
}

/// Puts `name` into the ascending list, unless it is there.
pub fn insert_name(list: &mut Vec<String>, name: &str)
    ensures
        texts(final(list)@) == with_name(texts(old(list)@), name@),
{
    let ghost before = texts(list@);
    let n = list.len();
    let mut p: usize = 0;
    proof {
        assert(before.skip(0) =~= before);
    }
    while p < n && text_before(list[p].as_str(), name)
        invariant
            p <= n,
            n == list@.len(),
            before == texts(list@),
            before == texts(old(list)@),
            leading_before(before, name@) == p + leading_before(before.skip(p as int), name@),
        decreases n - p,
    {
        proof {
            assert(before.skip(p as int).drop_first() =~= before.skip(p + 1));
            assert(before.skip(p as int)[0] == list@[p as int]@);
        }
        p += 1;
    }
    proof {
        if p < n {
            assert(before.skip(p as int)[0] == list@[p as int]@);
        }
        assert(leading_before(before, name@) == p);
    }
    if p < n && text_eq(list[p].as_str(), name) {
        return ;
    }
    list.insert(p, name.to_owned());
    proof {
        assert(texts(list@) =~= before.insert(p as int, name@));
    }
}

/// A bone of a skeleton file as plain values.
pub struct BoneDataModel {
    pub name: Seq<char>,
    pub transform: Mat4,
    pub parent_index: Option<usize>,
    pub billboard_type: BillboardType,
}

impl BoneData {
    /// The bone as plain values.
    pub open spec fn model(self) -> BoneDataModel {
        BoneDataModel {
            name: self.name@,
            transform: self.transform,
            parent_index: self.parent_index,
            billboard_type: self.billboard_type,
        }
    }
}

/// The bones of a skeleton file as plain values.
pub open spec fn bone_data_models(list: Seq<BoneData>) -> Seq<BoneDataModel> {
    list.map_values(|b: BoneData| b.model())
}

/// The names of the bones of a list of influences.
pub open spec fn influence_names(list: Seq<DaeBoneInfluence>) -> Seq<Seq<char>> {
    list.map_values(|b: DaeBoneInfluence| b.bone_name@)
}

/// The names of the bones that the skins of `meshes` refer to, mesh by mesh.
pub open spec fn skin_bone_names(meshes: Seq<DaeMesh>) -> Seq<Seq<char>>
    decreases meshes.len(),
{
    if meshes.len() == 0 {
        Seq::empty()
    } else {
        skin_bone_names(meshes.drop_last()) + influence_names(meshes.last().bone_influences@)
    }
}

/// The bones of a hierarchy as bones of a skeleton file, their transforms
/// converted as `axis` asks.
pub open spec fn authored_bones(bones: Seq<DaeBone>, axis: UpAxisConversion) -> Seq<BoneDataModel> {
    Seq::new(
        bones.len(),
        |i: int|
            BoneDataModel {
                name: bones[i].name@,
                transform: converted_matrix(bones[i].transform, axis),
                parent_index: bones[i].parent_index,
                billboard_type: BillboardType::Disabled,
            },
    )
}

/// A chain of bones with the given names: the first is the root, each other
/// hangs on the one before it. All rest at the identity.
pub open spec fn chained_bones(names: Seq<Seq<char>>) -> Seq<BoneDataModel> {
    Seq::new(
        names.len(),
        |i: int|
            BoneDataModel {
                name: names[i],
                transform: identity_transform(),
                parent_index: if i == 0 {
                    None
                } else {
                    Some((i - 1) as usize)
                },
                billboard_type: BillboardType::Disabled,
            },
    )
}

/// The single bone of a skeleton of which nothing is known.
pub open spec fn root_bone() -> BoneDataModel {
    BoneDataModel {
        name: "Root"@,
        transform: identity_transform(),
        parent_index: None,
        billboard_type: BillboardType::Disabled,
    }
}

/// The bones of the skeleton of a scene: the authored hierarchy where there
/// is one, turned with the scene; else a chain of the bones that the skins
/// name, in dictionary order; else one root bone.
pub open spec fn skeleton_bones(bones: Seq<DaeBone>, meshes: Seq<DaeMesh>, axis: UpAxisConversion) -> Seq<
    BoneDataModel,
> {
    if bones.len() > 0 {
        authored_bones(bones, axis)
    } else {
        let names = sorted_names(skin_bone_names(meshes));
        if names.len() > 0 {
            chained_bones(names)
        } else {
            seq![root_bone()]
        }
    }
}

fn collect_bone_names(meshes: &[DaeMesh]) -> (r: Vec<String>)
    ensures
        texts(r@) == sorted_names(skin_bone_names(meshes@)),
{
    let mut names: Vec<String> = Vec::new();
    let n = meshes.len();
    let mut i: usize = 0;
    proof {
        assert(meshes@.take(0) =~= Seq::<DaeMesh>::empty());
        assert(texts(names@) =~= Seq::<Seq<char>>::empty());
    }
    while i < n
        invariant
            i <= n,
            n == meshes@.len(),
            texts(names@) == sorted_names(skin_bone_names(meshes@.take(i as int))),
        decreases n - i,
    {
        let list = &meshes[i].bone_influences;
        let ghost done = skin_bone_names(meshes@.take(i as int));
        let ghost here = influence_names(list@);
        let m = list.len();
        let mut k: usize = 0;
        proof {
            assert(done + here.take(0) =~= done);
        }
        while k < m
            invariant
                k <= m,
                m == list@.len(),
                here == influence_names(list@),
                texts(names@) == sorted_names(done + here.take(k as int)),
            decreases m - k,
        {
            proof {
                assert((done + here.take(k + 1)).drop_last() =~= done + here.take(k as int));
                assert((done + here.take(k + 1)).last() == list@[k as int].bone_name@);
            }
            insert_name(&mut names, list[k].bone_name.as_str());
            k += 1;
        }
        proof {
            assert(here.take(m as int) =~= here);
            assert(meshes@.take(i + 1).drop_last() =~= meshes@.take(i as int));
            assert(meshes@.take(i + 1).last() == meshes@[i as int]);
        }
        i += 1;
    }
    proof {
        assert(meshes@.take(n as int) =~= meshes@);
    }
    names
}

/// The skeleton of a scene.
pub fn convert_skeleton_from_dae(
    dae_bones: &[DaeBone],
    meshes: &[DaeMesh],
    config: &DaeConvertConfig,
) -> (r: SkelData)
    ensures
        r.major_version == 1,
        r.minor_version == 0,
        bone_data_models(r.bones@) == skeleton_bones(
            dae_bones@,
            meshes@,
            config.up_axis_conversion,
        ),
        parents_precede(bone_models(dae_bones@)) ==> parents_before(r.bones@),
{
    let axis = config.up_axis_conversion;
    let mut bones: Vec<BoneData> = Vec::new();
    if dae_bones.len() > 0 {
        let n = dae_bones.len();
        let mut i: usize = 0;
        while i < n
            invariant
                i <= n,
                n == dae_bones@.len(),
                bones@.len() == i,
                forall|k: int|
                    0 <= k < i ==> (#[trigger] bones@[k]).model() == authored_bones(
                        dae_bones@,
                        axis,
                    )[k],
            decreases n - i,
        {
            bones.push(
                BoneData {
                    name: dae_bones[i].name.clone(),
                    transform: convert_matrix(&dae_bones[i].transform, axis),
                    parent_index: dae_bones[i].parent_index,
                    billboard_type: BillboardType::Disabled,
                },
            );
            i += 1;
        }
        proof {
            assert(bone_data_models(bones@) =~= authored_bones(dae_bones@, axis));
        }
    } else {
        let names = collect_bone_names(meshes);
        let ghost sorted = texts(names@);
        let n = names.len();
        let mut i: usize = 0;
        while i < n
            invariant
                i <= n,
                n == names@.len(),
                sorted == texts(names@),
                bones@.len() == i,
                forall|k: int|
                    0 <= k < i ==> (#[trigger] bones@[k]).model() == chained_bones(sorted)[k],
            decreases n - i,
        {
            bones.push(
                BoneData {
                    name: names[i].clone(),
                    transform: identity(),
                    parent_index: if i == 0 {
                        None
                    } else {
                        Some(i - 1)
                    },
                    billboard_type: BillboardType::Disabled,
                },
            );
            i += 1;
        }
        proof {
            assert(bone_data_models(bones@) =~= chained_bones(sorted));
        }
        if bones.len() == 0 {
            bones.push(
                BoneData {
                    name: "Root".to_owned(),
                    transform: identity(),
                    parent_index: None,
                    billboard_type: BillboardType::Disabled,
                },
            );
            proof {
                assert(bone_data_models(bones@) =~= seq![root_bone()]);
            }
        }
    }
    proof {
        let models = bone_data_models(bones@);
        if parents_precede(bone_models(dae_bones@)) {
            assert forall|k: int| 0 <= k < bones@.len() implies match (#[trigger] bones@[
                k
            ]).parent_index {
                Some(p) => p < k,
                None => true,
            } by {
                assert(models[k].parent_index == bones@[k].parent_index);
                if dae_bones@.len() > 0 {
                    assert(bone_models(dae_bones@)[k].parent_index == dae_bones@[k].parent_index);
                }
            }
        }
    }
    SkelData { major_version: 1, minor_version: 0, bones }
}

/// The label of the one material that every mesh object is given.
pub open spec fn default_material_label() -> Seq<char> {
    "DefaultMaterial"@
}

/// The model file of a scene: one entry per mesh, by position, each with the
/// default material; the names of the skeleton, material and mesh files
/// after the base name.
pub fn convert_model_to_ssbh(meshes: &[DaeMesh], config: &DaeConvertConfig) -> (r: ModlData)
    ensures
        r.major_version == 1,
        r.minor_version == 0,
        r.model_name@ == config.base_filename@,
        r.skeleton_file_name@ == file_name(config.base_filename@, OutputKind::Skeleton.extension()),
        r.mesh_file_name@ == file_name(config.base_filename@, OutputKind::Mesh.extension()),
        r.material_file_names@.len() == 1,
        r.material_file_names@[0]@ == file_name(
            config.base_filename@,
            OutputKind::Material.extension(),
        ),
        r.animation_file_name is None,
        r.entries@.len() == meshes@.len(),
        forall|i: int|
            0 <= i < meshes@.len() ==> {
                &&& (#[trigger] r.entries@[i]).mesh_object_name@ == meshes@[i].name@
                &&& r.entries@[i].mesh_object_subindex == i
                &&& r.entries@[i].material_label@ == default_material_label()
            },
{
    let mut entries: Vec<ModlEntryData> = Vec::new();
    let n = meshes.len();
    let mut i: usize = 0;
    while i < n
        invariant
            i <= n,
            n == meshes@.len(),
            entries@.len() == i,
            forall|k: int|
                0 <= k < i ==> {
                    &&& (#[trigger] entries@[k]).mesh_object_name@ == meshes@[k].name@
                    &&& entries@[k].mesh_object_subindex == k
                    &&& entries@[k].material_label@ == default_material_label()
                },
        decreases n - i,
    {
        entries.push(
            ModlEntryData {
                mesh_object_name: meshes[i].name.clone(),
                mesh_object_subindex: i as u64,
                material_label: "DefaultMaterial".to_owned(),
            },
        );
        i += 1;
    }
    let base = config.base_filename.as_str();
    let mut material_file_names: Vec<String> = Vec::new();
    material_file_names.push(output_file_name(base, OutputKind::Material));
    ModlData {
        major_version: 1,
        minor_version: 0,
        model_name: config.base_filename.clone(),
        skeleton_file_name: output_file_name(base, OutputKind::Skeleton),
        material_file_names,
        animation_file_name: None,
        mesh_file_name: output_file_name(base, OutputKind::Mesh),
        entries,
    }
}

/// The weights of an influence as weights of a mesh object.
pub open spec fn exported_weights(list: Seq<DaeVertexWeight>) -> Seq<VertexWeight> {
    Seq::new(
        list.len(),
        |i: int| VertexWeight { vertex_index: list[i].vertex_index, vertex_weight: list[i].weight },
    )
}

/// The influences of a mesh as influences of a mesh object: those without
/// a weight are left out.
pub open spec fn exported_influences(list: Seq<DaeBoneInfluence>) -> Seq<BoneInfluenceModel>
    decreases list.len(),
{
    if list.len() == 0 {
        Seq::empty()
    } else {
        let before = exported_influences(list.drop_last());
        if list.last().vertex_weights@.len() > 0 {
            before.push(
                BoneInfluenceModel {
                    bone_name: list.last().bone_name@,
                    vertex_weights: exported_weights(list.last().vertex_weights@),
                },
            )
        } else {
            before
        }
    }
}

/// The influences of a mesh as influences of a mesh object.
pub fn convert_dae_bone_influences_to_ssbh(dae_influences: &[DaeBoneInfluence]) -> (r: Vec<
    BoneInfluence,
>)
    ensures
        bone_influence_models(r@) == exported_influences(dae_influences@),
{
    let mut out: Vec<BoneInfluence> = Vec::new();
    let n = dae_influences.len();
    let mut i: usize = 0;
    proof {
        assert(dae_influences@.take(0) =~= Seq::<DaeBoneInfluence>::empty());
        assert(bone_influence_models(out@) =~= Seq::<BoneInfluenceModel>::empty());
    }
    while i < n
        invariant
            i <= n,
            n == dae_influences@.len(),
            bone_influence_models(out@) == exported_influences(dae_influences@.take(i as int)),
        decreases n - i,
    {
        proof {
            assert(dae_influences@.take(i + 1).drop_last() =~= dae_influences@.take(i as int));
            assert(dae_influences@.take(i + 1).last() == dae_influences@[i as int]);
        }
        let source = &dae_influences[i].vertex_weights;
        let m = source.len();
        if m > 0 {
            let mut weights: Vec<VertexWeight> = Vec::new();
            let mut k: usize = 0;
            while k < m
                invariant
                    k <= m,
                    m == source@.len(),
                    weights@.len() == k,
                    forall|j: int| 0 <= j < k ==> weights@[j] == exported_weights(source@)[j],
                decreases m - k,
            {
                weights.push(
                    VertexWeight {
                        vertex_index: source[k].vertex_index,
                        vertex_weight: source[k].weight,
                    },
                );
                k += 1;
            }
            let influence = BoneInfluence {
                bone_name: dae_influences[i].bone_name.clone(),
                vertex_weights: weights,
            };
            proof {
                assert(weights@ =~= exported_weights(source@));
                assert(bone_influence_models(out@.push(influence)) =~= bone_influence_models(
                    out@,
                ).push(influence.model()));
            }
            out.push(influence);
        }
        i += 1;
    }
    proof {
        assert(dae_influences@.take(n as int) =~= dae_influences@);
    }
    out
}

/// The normals of a mesh that can go into a mesh object of `vertex_count`
/// vertices: its own, turned as the configuration asks, if there is one per
/// vertex. Without them the caller has to make some up.
pub fn usable_normals(mesh: &DaeMesh, vertex_count: usize, config: &DaeConvertConfig) -> (r: Option<
    Vec<Vec3>,
>)
    ensures
        r is Some <==> mesh.normals@.len() > 0 && mesh.normals@.len() == vertex_count,
        r is Some ==> r->0@ == all_converted(mesh.normals@, config.up_axis_conversion),
{
    if mesh.normals.len() > 0 && mesh.normals.len() == vertex_count {
        Some(apply_normal_transforms(mesh.normals.as_slice(), config))
    } else {
        None
    }
}

/// The coordinate of a vertex without texture coordinates, and the entry of
/// the first colour set: the origin.
pub open spec fn zero_pair() -> Vec2 {
    [Scalar { bits: zero_bits() }, Scalar { bits: zero_bits() }]
}

/// The entry of the second set of texture coordinates: all ones.
pub open spec fn all_ones() -> [Scalar; 4] {
    [
        Scalar { bits: one_bits() },
        Scalar { bits: one_bits() },
        Scalar { bits: one_bits() },
        Scalar { bits: one_bits() },
    ]
}

/// The texture coordinates of a mesh that go into a mesh object of `count`
/// vertices: its own if there is one per vertex, else the origin for each.
pub open spec fn exported_uvs(uvs: Seq<Vec2>, count: nat) -> Seq<Vec2> {
    if uvs.len() > 0 && uvs.len() == count {
        uvs
    } else {
        repeated(zero_pair(), count)
    }
}

/// The vectors of a mesh that only arithmetic on numbers can give: its
/// positions multiplied by the scale factor; a normal per vertex for a mesh
/// that has none to use; a binormal per vertex.
#[derive(Clone, Debug, PartialEq, Eq)]
pub struct MeshVectors {
    pub scaled_positions: Vec<Vec3>,
    pub made_up_normals: Vec<Vec3>,
    pub binormals: Vec<Vec3>,
}

/// An attribute without a name.
pub open spec fn unnamed(data: VectorModel) -> AttributeModel {
    AttributeModel { name: Seq::empty(), data }
}

/// Whether a mesh has normals of its own to use: one per vertex.
pub open spec fn has_usable_normals(mesh: DaeMesh) -> bool {
    mesh.normals@.len() > 0 && mesh.normals@.len() == mesh.vertices@.len()
}

/// Whether the vectors computed for a mesh fit it: one scaled position and
/// one binormal per vertex, and one made-up normal per vertex where the mesh
/// has no normals to use.
pub open spec fn vectors_fit(mesh: DaeMesh, vectors: MeshVectors) -> bool {
    &&& vectors.scaled_positions@.len() == mesh.vertices@.len()
    &&& vectors.binormals@.len() == mesh.vertices@.len()
    &&& has_usable_normals(mesh) || vectors.made_up_normals@.len() == mesh.vertices@.len()
}

/// The normals of the mesh object of a mesh: its own, turned, if there is
/// one per vertex, else the made-up ones.
pub open spec fn exported_normals(mesh: DaeMesh, vectors: MeshVectors, axis: UpAxisConversion) -> Seq<
    Vec3,
> {
    if has_usable_normals(mesh) {
        all_converted(mesh.normals@, axis)
    } else {
        vectors.made_up_normals@
    }
}

/// The mesh object of the mesh at position `index`: its scaled positions,
/// turned; its normals; two equal sets of binormals and four sets of
/// tangents equal to the positions, all without names; its texture
/// coordinates and a set `HalfFloat2_0` of all ones; a colour set
/// `colorSet1` at the origin; its indices and its influences.
pub open spec fn mesh_object(
    mesh: DaeMesh,
    index: usize,
    vectors: MeshVectors,
    axis: UpAxisConversion,
) -> MeshObjectModel {
    let count = mesh.vertices@.len();
    let positions = unnamed(
        VectorModel::Vector3(all_converted(vectors.scaled_positions@, axis)),
    );
    let binormals = unnamed(VectorModel::Vector3(vectors.binormals@));
    MeshObjectModel {
        name: mesh.name@,
        subindex: index as u64,
        vertex_indices: mesh.indices@,
        positions: seq![positions],
        normals: seq![unnamed(VectorModel::Vector3(exported_normals(mesh, vectors, axis)))],
        binormals: seq![binormals, binormals],
        tangents: seq![positions, positions, positions, positions],
        texture_coordinates: seq![
            unnamed(VectorModel::Vector2(exported_uvs(mesh.uvs@, count))),
            AttributeModel {
                name: "HalfFloat2_0"@,
                data: VectorModel::Vector4(repeated(all_ones(), count)),
            },
        ],
        color_sets: seq![
            AttributeModel {
                name: "colorSet1"@,
                data: VectorModel::Vector2(repeated(zero_pair(), count)),
            },
        ],
        bone_influences: exported_influences(mesh.bone_influences@),
    }
}

/// The mesh objects of the first `upto` meshes: one for each mesh that has
/// vertices.
pub open spec fn mesh_objects(
    meshes: Seq<DaeMesh>,
    vectors: Seq<MeshVectors>,
    axis: UpAxisConversion,
    upto: nat,
) -> Seq<MeshObjectModel>
    decreases upto,
{
    if upto == 0 {
        Seq::empty()
    } else {
        let before = mesh_objects(meshes, vectors, axis, (upto - 1) as nat);
        if meshes[upto - 1].vertices@.len() > 0 {
            before.push(mesh_object(meshes[upto - 1], (upto - 1) as usize, vectors[upto - 1], axis))
        } else {
            before
        }
    }
}

/// The position of the first of the first `upto` meshes that has vertices
/// and vectors that do not fit it.
pub open spec fn first_unfit(meshes: Seq<DaeMesh>, vectors: Seq<MeshVectors>, upto: nat) -> Option<
    int,
>
    decreases upto,
{
    if upto == 0 {
        None
    } else {
        match first_unfit(meshes, vectors, (upto - 1) as nat) {
            Some(i) => Some(i),
            None => if meshes[upto - 1].vertices@.len() > 0 && !vectors_fit(
                meshes[upto - 1],
                vectors[upto - 1],
            ) {
                Some(upto - 1)
            } else {
                None
            },
        }
    }
}

/// An unfit mesh among some meshes is the first unfit one among more.
proof fn lemma_first_unfit_kept(meshes: Seq<DaeMesh>, vectors: Seq<MeshVectors>, a: nat, b: nat)
    requires
        a <= b,
        first_unfit(meshes, vectors, a) is Some,
    ensures
        first_unfit(meshes, vectors, b) == first_unfit(meshes, vectors, a),
    decreases b - a,
{
    if a < b {
        lemma_first_unfit_kept(meshes, vectors, a, (b - 1) as nat);
    }
}

fn unnamed_vector3(data: Vec<Vec3>) -> (r: AttributeData)
    ensures
        r.model() == unnamed(VectorModel::Vector3(data@)),
{
    AttributeData { name: String::new(), data: VectorData::Vector3(data) }
}

fn fit(mesh: &DaeMesh, vectors: &MeshVectors) -> (r: bool)
    ensures
        r == vectors_fit(*mesh, *vectors),
{
    let count = mesh.vertices.len();
    vectors.scaled_positions.len() == count && vectors.binormals.len() == count && ((
    mesh.normals.len() > 0 && mesh.normals.len() == count) || vectors.made_up_normals.len()
        == count)
}

fn convert_mesh(mesh: &DaeMesh, index: usize, vectors: &MeshVectors, config: &DaeConvertConfig) -> (r:
    MeshObjectData)
    ensures
        r.model() == mesh_object(*mesh, index, *vectors, config.up_axis_conversion),
{
    let count = mesh.vertices.len();
    let uvs = if mesh.uvs.len() > 0 && mesh.uvs.len() == count {
        copy_list(&mesh.uvs)
    } else {
        repeat([Scalar::zero(), Scalar::zero()], count)
    };
    let turned = apply_transforms(vectors.scaled_positions.as_slice(), config);
    let own_normals = match usable_normals(mesh, count, config) {
        Some(own) => own,
        None => copy_list(&vectors.made_up_normals),
    };
    let mut positions: Vec<AttributeData> = Vec::new();
    positions.push(unnamed_vector3(copy_list(&turned)));
    let mut normals: Vec<AttributeData> = Vec::new();
    normals.push(unnamed_vector3(own_normals));
    let mut binormals: Vec<AttributeData> = Vec::new();
    binormals.push(unnamed_vector3(copy_list(&vectors.binormals)));
    binormals.push(unnamed_vector3(copy_list(&vectors.binormals)));
    let mut tangents: Vec<AttributeData> = Vec::new();
    tangents.push(unnamed_vector3(copy_list(&turned)));
    tangents.push(unnamed_vector3(copy_list(&turned)));
    tangents.push(unnamed_vector3(copy_list(&turned)));
    tangents.push(unnamed_vector3(turned));
    let mut texture_coordinates: Vec<AttributeData> = Vec::new();
    texture_coordinates.push(AttributeData { name: String::new(), data: VectorData::Vector2(uvs) });
    let one = Scalar::one();
    texture_coordinates.push(
        AttributeData {
            name: "HalfFloat2_0".to_owned(),
            data: VectorData::Vector4(repeat([one, one, one, one], count)),
        },
    );
    let mut color_sets: Vec<AttributeData> = Vec::new();
    color_sets.push(
        AttributeData {
            name: "colorSet1".to_owned(),
            data: VectorData::Vector2(repeat([Scalar::zero(), Scalar::zero()], count)),
        },
    );
    let object = MeshObjectData {
        name: mesh.name.clone(),
        subindex: index as u64,
        vertex_indices: copy_list(&mesh.indices),
        positions,
        normals,
        binormals,
        tangents,
        texture_coordinates,
        color_sets,
        bone_influences: convert_dae_bone_influences_to_ssbh(mesh.bone_influences.as_slice()),
    };
    proof {
        let want = mesh_object(*mesh, index, *vectors, config.up_axis_conversion);
        assert(object.model().positions =~= want.positions);
        assert(object.model().normals =~= want.normals);
        assert(object.model().binormals =~= want.binormals);
        assert(object.model().tangents =~= want.tangents);
        assert(object.model().texture_coordinates =~= want.texture_coordinates);
        assert(object.model().color_sets =~= want.color_sets);
    }
    object
}

/// What keeps the mesh file of a scene from being made, if anything:
/// vectors that are not one set per mesh, a mesh with vertices whose vectors
/// are not one per vertex, or no mesh with vertices.
pub open spec fn mesh_file_fault(meshes: Seq<DaeMesh>, vectors: Seq<MeshVectors>) -> Option<
    DaeError,
> {
    if vectors.len() != meshes.len() {
        Some(
            DaeError::VectorsMismatch {
                meshes: meshes.len() as usize,
                vectors: vectors.len() as usize,
            },
        )
    } else {
        match first_unfit(meshes, vectors, meshes.len()) {
            Some(i) => Some(
                DaeError::VectorsUnfit {
                    mesh_index: i as usize,
                    vertices: meshes[i].vertices@.len() as usize,
                },
            ),
            None => if forall|i: int|
                0 <= i < meshes.len() ==> (#[trigger] meshes[i]).vertices@.len() == 0 {
                Some(DaeError::NoMeshObjects)
            } else {
                None
            },
        }
    }
}

/// The mesh file of a scene: version 1.8 in its second vertex layout, with
/// one object for each mesh that has vertices. `vectors` holds for each
/// mesh, by position, the vectors that the caller computed for it. The
/// scaled positions are turned here as the configuration asks, and so are
/// the normals of a mesh that has one per vertex; the made-up normals are
/// used for a mesh that has not.
pub fn convert_meshes_to_ssbh(
    meshes: &[DaeMesh],
    vectors: &[MeshVectors],
    config: &DaeConvertConfig,
) -> (r: Result<MeshData, DaeError>)
    ensures
        match r {
            Ok(data) => {
                &&& mesh_file_fault(meshes@, vectors@) is None
                &&& data.major_version == 1
                &&& data.minor_version == 8
                &&& data.is_vs2
                &&& mesh_object_models(data.objects@) == mesh_objects(
                    meshes@,
                    vectors@,
                    config.up_axis_conversion,
                    meshes@.len(),
                )
            },
            Err(e) => mesh_file_fault(meshes@, vectors@) == Some(e),
        },
{
    let n = meshes.len();
    if vectors.len() != n {
        return Err(DaeError::VectorsMismatch { meshes: n, vectors: vectors.len() });
    }
    let mut objects: Vec<MeshObjectData> = Vec::new();
    let mut i: usize = 0;
    proof {
        assert(mesh_object_models(objects@) =~= Seq::<MeshObjectModel>::empty());
    }
    while i < n
        invariant
            i <= n,
            n == meshes@.len(),
            n == vectors@.len(),
            first_unfit(meshes@, vectors@, i as nat) is None,
            objects@.len() == 0 <==> forall|k: int|
                0 <= k < i ==> (#[trigger] meshes@[k]).vertices@.len() == 0,
            mesh_object_models(objects@) == mesh_objects(
                meshes@,
                vectors@,
                config.up_axis_conversion,
                i as nat,
            ),
        decreases n - i,
    {
        if meshes[i].vertices.len() > 0 {
            if !fit(&meshes[i], &vectors[i]) {
                proof {
                    lemma_first_unfit_kept(meshes@, vectors@, (i + 1) as nat, n as nat);
                }
                return Err(
                    DaeError::VectorsUnfit { mesh_index: i, vertices: meshes[i].vertices.len() },
                );
            }
            let object = convert_mesh(&meshes[i], i, &vectors[i], config);
            proof {
                assert(mesh_object_models(objects@.push(object)) =~= mesh_object_models(
                    objects@,
                ).push(object.model()));
            }
            objects.push(object);
        }
        i += 1;
    }
    if objects.len() == 0 {
        return Err(DaeError::NoMeshObjects);
    }
    Ok(MeshData { major_version: 1, minor_version: 8, objects, is_vs2: true })
}

} // verus!
