//! The in-memory records of the binary model format: meshes, a model, a
//! skeleton. An assembler fills them; whoever writes the files turns them
//! into the records of the format's own library, field for field.

use vstd::prelude::*;
use crate::model::{Mat4, Vec2, Vec3};
use crate::numbers::naturals_usize;
use crate::scalar::{zero_bits, Scalar};

verus! {

/// One vertex bound to a bone with a weight.
#[derive(Clone, Copy, Debug, PartialEq, Eq, Structural)]
pub struct VertexWeight {
    pub vertex_index: u32,
    pub vertex_weight: Scalar,
}

/// The vertices that one bone moves.
#[derive(Clone, Debug, PartialEq, Eq)]
pub struct BoneInfluence {
    pub bone_name: String,
    pub vertex_weights: Vec<VertexWeight>,
}

/// Vectors of two, three or four numbers.
#[derive(Clone, Debug, PartialEq, Eq)]
pub enum VectorData {
    Vector2(Vec<Vec2>),
    Vector3(Vec<Vec3>),
    Vector4(Vec<[Scalar; 4]>),
}

/// A named vertex attribute.
#[derive(Clone, Debug, PartialEq, Eq)]
pub struct AttributeData {
    pub name: String,
    pub data: VectorData,
}

/// One object of a mesh file.
#[derive(Clone, Debug, PartialEq, Eq)]
pub struct MeshObjectData {
    pub name: String,
    pub subindex: u64,
    pub vertex_indices: Vec<u32>,
    pub positions: Vec<AttributeData>,
    pub normals: Vec<AttributeData>,
    pub binormals: Vec<AttributeData>,
    pub tangents: Vec<AttributeData>,
    pub texture_coordinates: Vec<AttributeData>,
    pub color_sets: Vec<AttributeData>,
    pub bone_influences: Vec<BoneInfluence>,
}

/// A mesh file.
#[derive(Clone, Debug, PartialEq, Eq)]
pub struct MeshData {
    pub major_version: u16,
    pub minor_version: u16,
    pub objects: Vec<MeshObjectData>,
    pub is_vs2: bool,
}

/// One entry of a model file: a mesh object and its material.
#[derive(Clone, Debug, PartialEq, Eq)]
pub struct ModlEntryData {
    pub mesh_object_name: String,
    pub mesh_object_subindex: u64,
    pub material_label: String,
}

/// A model file.
#[derive(Clone, Debug, PartialEq, Eq)]
pub struct ModlData {
    pub major_version: u16,
    pub minor_version: u16,
    pub model_name: String,
    pub skeleton_file_name: String,
    pub material_file_names: Vec<String>,
    pub animation_file_name: Option<String>,
    pub mesh_file_name: String,
    pub entries: Vec<ModlEntryData>,
}

/// How a bone turns towards the camera.
#[derive(Clone, Copy, Debug, PartialEq, Eq, Structural)]
pub enum BillboardType {
    Disabled,
    XAxisViewPointAligned,
    YAxisViewPointAligned,
    Unk3,
    XYAxisViewPointAligned,
    YAxisViewPlaneAligned,
    XYAxisViewPlaneAligned,
}

/// One bone of a skeleton file.
#[derive(Clone, Debug, PartialEq, Eq)]
pub struct BoneData {
    pub name: String,
    pub transform: Mat4,
    pub parent_index: Option<usize>,
    pub billboard_type: BillboardType,
}

/// A skeleton file.
#[derive(Clone, Debug, PartialEq, Eq)]
pub struct SkelData {
    pub major_version: u16,
    pub minor_version: u16,
    pub bones: Vec<BoneData>,
}

impl VectorData {
    /// How many vectors there are.
    pub open spec fn count(self) -> nat {
        match self {
            VectorData::Vector2(v) => v@.len(),
            VectorData::Vector3(v) => v@.len(),
            VectorData::Vector4(v) => v@.len(),
        }
    }

    /// How many vectors there are.
    pub fn len(&self) -> (r: usize)
        ensures
            r == self.count(),
    {
        match self {
            VectorData::Vector2(v) => v.len(),
            VectorData::Vector3(v) => v.len(),
            VectorData::Vector4(v) => v.len(),
        }
    }
}

/// The lengths of a list of attributes.
pub open spec fn attribute_sizes(list: Seq<AttributeData>) -> Seq<nat> {
    list.map_values(|a: AttributeData| a.data.count())
}

impl MeshObjectData {
    /// The lengths of all attributes of the object: positions, normals,
    /// binormals, tangents, texture coordinates, colour sets.
    pub open spec fn sizes(self) -> Seq<nat> {
        attribute_sizes(self.positions@) + attribute_sizes(self.normals@) + attribute_sizes(
            self.binormals@,
        ) + attribute_sizes(self.tangents@) + attribute_sizes(self.texture_coordinates@)
            + attribute_sizes(self.color_sets@)
    }

    /// The number of vertices of the object: the common length of its
    /// attributes, 0 without attributes; none where the lengths differ.
    pub open spec fn vertices(self) -> Option<nat> {
        let sizes = self.sizes();
        if sizes.len() == 0 {
            Some(0)
        } else if forall|i: int| 0 <= i < sizes.len() ==> #[trigger] sizes[i] == sizes[0] {
            Some(sizes[0])
        } else {
            None
        }
    }
}

/// Vectors as plain values.
pub enum VectorModel {
    Vector2(Seq<Vec2>),
    Vector3(Seq<Vec3>),
    Vector4(Seq<[Scalar; 4]>),
}

impl VectorData {
    /// The record as plain values.
    pub open spec fn model(self) -> VectorModel {
        match self {
            VectorData::Vector2(v) => VectorModel::Vector2(v@),
            VectorData::Vector3(v) => VectorModel::Vector3(v@),
            VectorData::Vector4(v) => VectorModel::Vector4(v@),
        }
    }
}

/// A named attribute as plain values.
pub struct AttributeModel {
    pub name: Seq<char>,
    pub data: VectorModel,
}

impl AttributeData {
    /// The record as plain values.
    pub open spec fn model(self) -> AttributeModel {
        AttributeModel { name: self.name@, data: self.data.model() }
    }
}

/// A list of attributes as plain values.
pub open spec fn attribute_models(list: Seq<AttributeData>) -> Seq<AttributeModel> {
    list.map_values(|a: AttributeData| a.model())
}

/// A bone influence of a mesh object as plain values.
pub struct BoneInfluenceModel {
    pub bone_name: Seq<char>,
    pub vertex_weights: Seq<VertexWeight>,
}

impl BoneInfluence {
    /// The record as plain values.
    pub open spec fn model(self) -> BoneInfluenceModel {
        BoneInfluenceModel { bone_name: self.bone_name@, vertex_weights: self.vertex_weights@ }
    }
}

/// A list of bone influences as plain values.
pub open spec fn bone_influence_models(list: Seq<BoneInfluence>) -> Seq<BoneInfluenceModel> {
    list.map_values(|b: BoneInfluence| b.model())
}

/// A mesh object as plain values.
pub struct MeshObjectModel {
    pub name: Seq<char>,
    pub subindex: u64,
    pub vertex_indices: Seq<u32>,
    pub positions: Seq<AttributeModel>,
    pub normals: Seq<AttributeModel>,
    pub binormals: Seq<AttributeModel>,
    pub tangents: Seq<AttributeModel>,
    pub texture_coordinates: Seq<AttributeModel>,
    pub color_sets: Seq<AttributeModel>,
    pub bone_influences: Seq<BoneInfluenceModel>,
}

impl MeshObjectData {
    /// The record as plain values.
    pub open spec fn model(self) -> MeshObjectModel {
        MeshObjectModel {
            name: self.name@,
            subindex: self.subindex,
            vertex_indices: self.vertex_indices@,
            positions: attribute_models(self.positions@),
            normals: attribute_models(self.normals@),
            binormals: attribute_models(self.binormals@),
            tangents: attribute_models(self.tangents@),
            texture_coordinates: attribute_models(self.texture_coordinates@),
            color_sets: attribute_models(self.color_sets@),
            bone_influences: bone_influence_models(self.bone_influences@),
        }
    }
}

/// A list of mesh objects as plain values.
pub open spec fn mesh_object_models(list: Seq<MeshObjectData>) -> Seq<MeshObjectModel> {
    list.map_values(|o: MeshObjectData| o.model())
}

/// The vectors of an attribute as vectors of three: a fourth number is
/// dropped, a missing third is zero.
pub open spec fn as_vec3(data: VectorModel) -> Seq<Vec3> {
    match data {
        VectorModel::Vector3(v) => v,
        VectorModel::Vector4(v) => Seq::new(v.len(), |i: int| [v[i][0], v[i][1], v[i][2]]),
        VectorModel::Vector2(v) => Seq::new(
            v.len(),
            |i: int| [v[i][0], v[i][1], Scalar { bits: zero_bits() }],
        ),
    }
}

/// The vectors of an attribute as vectors of two: further numbers are
/// dropped.
pub open spec fn as_vec2(data: VectorModel) -> Seq<Vec2> {
    match data {
        VectorModel::Vector2(v) => v,
        VectorModel::Vector3(v) => Seq::new(v.len(), |i: int| [v[i][0], v[i][1]]),
        VectorModel::Vector4(v) => Seq::new(v.len(), |i: int| [v[i][0], v[i][1]]),
    }
}

/// The vectors of an attribute as vectors of three.
pub fn convert_vector_data_to_vec3(data: &VectorData) -> (r: Vec<Vec3>)
    ensures
        r@ == as_vec3(data.model()),
{
    let mut out: Vec<Vec3> = Vec::new();
    let n = data.len();
    let mut i: usize = 0;
    while i < n
        invariant
            i <= n,
            n == data.count(),
            out@.len() == i,
            forall|k: int| 0 <= k < i ==> out@[k] == as_vec3(data.model())[k],
        decreases n - i,
    {
        let v: Vec3 = match data {
            VectorData::Vector3(list) => list[i],
            VectorData::Vector4(list) => [list[i][0], list[i][1], list[i][2]],
            VectorData::Vector2(list) => [list[i][0], list[i][1], Scalar::zero()],
        };
        out.push(v);
        i += 1;
    }
    proof {
        assert(out@ =~= as_vec3(data.model()));
    }
    out
}

/// The vectors of an attribute as vectors of two.
pub fn convert_vector_data_to_vec2(data: &VectorData) -> (r: Vec<Vec2>)
    ensures
        r@ == as_vec2(data.model()),
{
    let mut out: Vec<Vec2> = Vec::new();
    let n = data.len();
    let mut i: usize = 0;
    while i < n
        invariant
            i <= n,
            n == data.count(),
            out@.len() == i,
            forall|k: int| 0 <= k < i ==> out@[k] == as_vec2(data.model())[k],
        decreases n - i,
    {
        let v: Vec2 = match data {
            VectorData::Vector2(list) => list[i],
            VectorData::Vector3(list) => [list[i][0], list[i][1]],
            VectorData::Vector4(list) => [list[i][0], list[i][1]],
        };
        out.push(v);
        i += 1;
    }
    proof {
        assert(out@ =~= as_vec2(data.model()));
    }
    out
}

fn note_sizes(sizes: &mut Vec<usize>, list: &Vec<AttributeData>)
    ensures
        naturals_usize(final(sizes)@) == naturals_usize(old(sizes)@) + attribute_sizes(list@),
{
    let ghost before = naturals_usize(sizes@);
    let n = list.len();
    let mut i: usize = 0;
    proof {
        assert(before + attribute_sizes(list@).take(0) =~= before);
    }
    while i < n
        invariant
            i <= n,
            n == list@.len(),
            naturals_usize(sizes@) == before + attribute_sizes(list@).take(i as int),
        decreases n - i,
    {
        let ghost prev = sizes@;
        sizes.push(list[i].data.len());
        proof {
            assert(attribute_sizes(list@)[i as int] == list@[i as int].data.count());
            assert(attribute_sizes(list@).take(i + 1) =~= attribute_sizes(list@).take(
                i as int,
            ).push(list@[i as int].data.count()));
            assert(naturals_usize(sizes@) =~= naturals_usize(prev).push(list@[i as int].data.count()));
            assert(naturals_usize(sizes@) =~= before + attribute_sizes(list@).take(i + 1));
        }
        i += 1;
    }
    proof {
        assert(attribute_sizes(list@).take(n as int) =~= attribute_sizes(list@));
    }
}

/// The number of vertices of a mesh object: the common length of its
/// attributes; none where the lengths differ.
pub fn vertex_count(object: &MeshObjectData) -> (r: Option<usize>)
    ensures
        match r {
            Some(n) => object.vertices() == Some(n as nat),
            None => object.vertices() is None,
        },
{
    let mut sizes: Vec<usize> = Vec::new();
    proof {
        assert(naturals_usize(sizes@) =~= Seq::<nat>::empty());
    }
    note_sizes(&mut sizes, &object.positions);
    note_sizes(&mut sizes, &object.normals);
    note_sizes(&mut sizes, &object.binormals);
    note_sizes(&mut sizes, &object.tangents);
    note_sizes(&mut sizes, &object.texture_coordinates);
    note_sizes(&mut sizes, &object.color_sets);
    proof {
        assert(naturals_usize(sizes@) =~= object.sizes());
    }
    let n = sizes.len();
    if n == 0 {
        return Some(0);
    }
    let first = sizes[0];
    let mut i: usize = 0;
    while i < n
        invariant
            i <= n,
            n == sizes@.len(),
            n > 0,
            first == sizes@[0],
            naturals_usize(sizes@) == object.sizes(),
            forall|k: int| 0 <= k < i ==> #[trigger] object.sizes()[k] == object.sizes()[0],
        decreases n - i,
    {
        proof {
            assert(naturals_usize(sizes@)[i as int] == sizes@[i as int]);
            assert(naturals_usize(sizes@)[0] == sizes@[0]);
        }
        if sizes[i] != first {
            return None;
        }
        i += 1;
    }
    proof {
        assert(naturals_usize(sizes@)[0] == sizes@[0]);
    }
    Some(first)
}

} // verus!
