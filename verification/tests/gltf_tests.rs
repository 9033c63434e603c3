use dae_scene::bind_pose::bind_pose_order;
use dae_scene::error::DaeError;
use dae_scene::gltf::buffer::{
    create_indices_accessor,
    create_joints_accessor,
    create_mat4_accessor,
    create_vec2_accessor,
    create_vec3_accessor,
    create_weights_accessor,
    max_scalar,
    min_scalar,
    position_bounds,
    Accessor,
    Bounds,
    BufferTarget,
    BufferView,
    ComponentType,
    ElementType,
};
use dae_scene::gltf::document::{assemble_gltf, GltfArithmetic};
use dae_scene::gltf::mesh::{process_mesh_data, Primitive};
use dae_scene::gltf::nodes::{
    create_mesh_nodes,
    create_skin,
    process_skeleton_data,
    GltfNode,
    NodeTransform,
};
use dae_scene::gltf::skin::{
    bind_object,
    bind_vertex,
    bone_names,
    find_joint,
    rank,
    select_influences,
    skin_streams,
    vertex_influences,
    VertexBlend,
};
use dae_scene::model::identity;
use dae_scene::records::{
    convert_vector_data_to_vec2,
    convert_vector_data_to_vec3,
    vertex_count,
    AttributeData,
    BillboardType,
    BoneData,
    BoneInfluence,
    MeshData,
    MeshObjectData,
    SkelData,
    VectorData,
    VertexWeight,
};
use dae_scene::scalar::Scalar;

fn s(v: f32) -> Scalar {
    Scalar::from_bits(v.to_bits())
}

fn f(v: Scalar) -> f32 {
    f32::from_bits(v.to_bits())
}

fn v3(x: f32, y: f32, z: f32) -> [Scalar; 3] {
    [s(x), s(y), s(z)]
}

fn floats(values: &[f32]) -> Vec<u8> {
    values.iter().flat_map(|v| v.to_le_bytes()).collect()
}

fn bone(name: &str, parent: Option<usize>) -> BoneData {
    BoneData { name: name.to_string(), transform: identity(), parent_index: parent, billboard_type: BillboardType::Disabled }
}

fn skeleton(bones: Vec<BoneData>) -> SkelData {
    SkelData { major_version: 1, minor_version: 0, bones }
}

fn influence(name: &str, weights: &[(u32, f32)]) -> BoneInfluence {
    BoneInfluence {
        bone_name: name.to_string(),
        vertex_weights: weights.iter().map(|w| VertexWeight { vertex_index: w.0, vertex_weight: s(w.1) }).collect(),
    }
}

fn attribute3(data: Vec<[Scalar; 3]>) -> AttributeData {
    AttributeData { name: String::new(), data: VectorData::Vector3(data) }
}

fn object(name: &str, positions: Vec<[Scalar; 3]>) -> MeshObjectData {
    MeshObjectData {
        name: name.to_string(),
        subindex: 0,
        vertex_indices: vec![],
        positions: vec![attribute3(positions)],
        normals: vec![],
        binormals: vec![],
        tangents: vec![],
        texture_coordinates: vec![],
        color_sets: vec![],
        bone_influences: vec![],
    }
}

/// The sum of the weights of a vertex's strongest influences, and the share
/// of each in the sum.
fn blend(selected: &[(usize, Scalar)]) -> VertexBlend {
    let total: f32 = selected.iter().map(|(_, w)| f(*w)).sum();
    let mut shares = [s(0.0); 4];
    for (slot, (_, w)) in selected.iter().take(4).enumerate() {
        shares[slot] = s(f(*w) / total);
    }
    VertexBlend { total: s(total), shares }
}

/// One blend for every vertex of an object that gets a skin.
fn blends_of(object: &MeshObjectData, skel: &SkelData) -> Vec<VertexBlend> {
    if object.bone_influences.is_empty() {
        return vec![];
    }
    select_influences(object, skel).iter().map(|list| blend(list)).collect()
}

fn u16s(bytes: &[u8]) -> Vec<u16> {
    bytes.chunks(2).map(|c| u16::from_le_bytes([c[0], c[1]])).collect()
}

fn f32s(bytes: &[u8]) -> Vec<f32> {
    bytes.chunks(4).map(|c| f32::from_le_bytes([c[0], c[1], c[2], c[3]])).collect()
}

#[test]
fn positions_go_into_the_buffer_with_their_bounds() {
    let mut data = vec![0xaau8, 0xbb];
    let mut views = Vec::new();
    let mut accessors = Vec::new();
    let index = create_vec3_accessor(
        &[v3(1.0, -2.0, 3.0), v3(-4.0, 5.0, 0.5)],
        &mut data,
        &mut views,
        &mut accessors,
        "POSITION",
    );
    assert_eq!(index, 0);
    let mut expected = vec![0xaau8, 0xbb];
    expected.extend(floats(&[1.0, -2.0, 3.0, -4.0, 5.0, 0.5]));
    assert_eq!(data, expected);
    assert_eq!(
        views,
        vec![BufferView { byte_offset: 2, byte_length: 24, byte_stride: Some(12), target: BufferTarget::ArrayBuffer }]
    );
    assert_eq!(
        accessors,
        vec![Accessor {
            buffer_view: 0,
            component_type: ComponentType::F32,
            count: 2,
            element_type: ElementType::Vec3,
            bounds: Some(Bounds { min: v3(-4.0, -2.0, 0.5), max: v3(1.0, 5.0, 3.0) }),
        }]
    );
}

#[test]
fn other_vectors_of_three_carry_no_bounds() {
    let mut data = Vec::new();
    let mut views = vec![BufferView { byte_offset: 0, byte_length: 0, byte_stride: None, target: BufferTarget::ArrayBuffer }];
    let mut accessors = Vec::new();
    let index = create_vec3_accessor(&[v3(0.0, 0.0, 1.0)], &mut data, &mut views, &mut accessors, "NORMAL");
    assert_eq!(index, 0);
    assert_eq!(accessors[0].bounds, None);
    assert_eq!(accessors[0].buffer_view, 1);
    assert_eq!(views[1].byte_length, 12);
}

#[test]
fn the_bounds_of_no_positions_are_the_infinities() {
    let b = position_bounds(&[]);
    assert_eq!(b.min, v3(f32::INFINITY, f32::INFINITY, f32::INFINITY));
    assert_eq!(b.max, v3(f32::NEG_INFINITY, f32::NEG_INFINITY, f32::NEG_INFINITY));
}

#[test]
fn least_and_greatest_pass_over_what_is_no_number() {
    let values = [1.0f32, -1.0, 0.0, 7.5, f32::INFINITY, f32::NEG_INFINITY, f32::NAN, 1e-40];
    for a in values {
        for b in values {
            let least = f(min_scalar(s(a), s(b)));
            let greatest = f(max_scalar(s(a), s(b)));
            if a.is_nan() && b.is_nan() {
                assert!(least.is_nan() && greatest.is_nan());
            } else {
                assert_eq!(least, a.min(b), "min {} {}", a, b);
                assert_eq!(greatest, a.max(b), "max {} {}", a, b);
            }
        }
    }
    let b = position_bounds(&[v3(f32::NAN, 1.0, 2.0), v3(3.0, f32::NAN, -2.0)]);
    assert_eq!(b.min, v3(3.0, 1.0, -2.0));
    assert_eq!(b.max, v3(3.0, 1.0, 2.0));
}

#[test]
fn every_kind_of_stream_has_its_stride_and_types() {
    let mut data = Vec::new();
    let mut views = Vec::new();
    let mut accessors = Vec::new();
    assert_eq!(create_vec2_accessor(&[[s(0.5), s(0.25)]], &mut data, &mut views, &mut accessors), 0);
    assert_eq!(create_indices_accessor(&[0, 1, 0x01020304], &mut data, &mut views, &mut accessors), 1);
    assert_eq!(create_joints_accessor(&[[1, 2, 0x0304, 0]], &mut data, &mut views, &mut accessors), 2);
    assert_eq!(create_weights_accessor(&[[s(0.5), s(0.5), s(0.0), s(0.0)]], &mut data, &mut views, &mut accessors), 3);
    let mut matrix = [s(0.0); 16];
    for i in 0..16 {
        matrix[i] = s(i as f32);
    }
    assert_eq!(create_mat4_accessor(&[matrix], &mut data, &mut views, &mut accessors), 4);
    let mut expected = floats(&[0.5, 0.25]);
    expected.extend([0, 0, 0, 0, 1, 0, 0, 0, 4, 3, 2, 1]);
    expected.extend([1, 0, 2, 0, 4, 3, 0, 0]);
    expected.extend(floats(&[0.5, 0.5, 0.0, 0.0]));
    expected.extend(floats(&(0..16).map(|i| i as f32).collect::<Vec<f32>>()));
    assert_eq!(data, expected);
    let shapes: Vec<(usize, usize, Option<usize>, BufferTarget)> =
        views.iter().map(|v| (v.byte_offset, v.byte_length, v.byte_stride, v.target)).collect();
    assert_eq!(
        shapes,
        vec![
            (0, 8, Some(8), BufferTarget::ArrayBuffer),
            (8, 12, None, BufferTarget::ElementArrayBuffer),
            (20, 8, Some(8), BufferTarget::ArrayBuffer),
            (28, 16, Some(16), BufferTarget::ArrayBuffer),
            (44, 64, Some(64), BufferTarget::ArrayBuffer),
        ]
    );
    let kinds: Vec<(usize, ComponentType, usize, ElementType)> =
        accessors.iter().map(|a| (a.buffer_view, a.component_type, a.count, a.element_type)).collect();
    assert_eq!(
        kinds,
        vec![
            (0, ComponentType::F32, 1, ElementType::Vec2),
            (1, ComponentType::U32, 3, ElementType::Scalar),
            (2, ComponentType::U16, 1, ElementType::Vec4),
            (3, ComponentType::F32, 1, ElementType::Vec4),
            (4, ComponentType::F32, 1, ElementType::Mat4),
        ]
    );
    assert!(accessors.iter().all(|a| a.bounds.is_none()));
}

#[test]
fn vectors_are_cut_or_filled_to_the_width_asked_for() {
    let two = VectorData::Vector2(vec![[s(1.0), s(2.0)]]);
    let three = VectorData::Vector3(vec![v3(1.0, 2.0, 3.0)]);
    let four = VectorData::Vector4(vec![[s(1.0), s(2.0), s(3.0), s(4.0)]]);
    assert_eq!(convert_vector_data_to_vec3(&two), vec![v3(1.0, 2.0, 0.0)]);
    assert_eq!(convert_vector_data_to_vec3(&three), vec![v3(1.0, 2.0, 3.0)]);
    assert_eq!(convert_vector_data_to_vec3(&four), vec![v3(1.0, 2.0, 3.0)]);
    assert_eq!(convert_vector_data_to_vec2(&two), vec![[s(1.0), s(2.0)]]);
    assert_eq!(convert_vector_data_to_vec2(&three), vec![[s(1.0), s(2.0)]]);
    assert_eq!(convert_vector_data_to_vec2(&four), vec![[s(1.0), s(2.0)]]);
}

#[test]
fn the_vertex_count_is_the_common_length_of_the_attributes() {
    let mut o = object("o", vec![v3(0.0, 0.0, 0.0); 3]);
    assert_eq!(vertex_count(&o), Some(3));
    o.normals = vec![attribute3(vec![v3(0.0, 0.0, 1.0); 3])];
    o.color_sets = vec![AttributeData { name: "c".to_string(), data: VectorData::Vector2(vec![[s(0.0); 2]; 3]) }];
    assert_eq!(vertex_count(&o), Some(3));
    o.tangents = vec![attribute3(vec![v3(0.0, 0.0, 1.0); 2])];
    assert_eq!(vertex_count(&o), None);
    o.positions.clear();
    o.normals.clear();
    o.color_sets.clear();
    o.tangents.clear();
    assert_eq!(vertex_count(&o), Some(0));
}

#[test]
fn a_bone_is_found_by_its_last_position() {
    let names = bone_names(&vec![bone("a", None), bone("b", Some(0)), bone("a", Some(1))]);
    assert_eq!(names, vec!["a", "b", "a"]);
    assert_eq!(find_joint(&names, "a", 65536), Some(2));
    assert_eq!(find_joint(&names, "b", 65536), Some(1));
    assert_eq!(find_joint(&names, "c", 65536), None);
    assert_eq!(find_joint(&names, "a", 2), Some(0));
    assert_eq!(find_joint(&names, "b", 1), None);
    assert_eq!(find_joint(&vec![], "a", 65536), None);
}

#[test]
fn ranking_is_by_descending_weight_and_keeps_ties_in_order() {
    let list = vec![(0usize, s(0.1)), (1, s(0.5)), (2, s(0.1)), (3, s(0.9)), (4, s(0.5)), (5, s(0.0))];
    let ranked: Vec<usize> = rank(&list).iter().map(|e| e.0).collect();
    assert_eq!(ranked, vec![3, 1, 4, 0, 2, 5]);
    let mut sorted = list.clone();
    sorted.sort_by(|a, b| f(b.1).partial_cmp(&f(a.1)).unwrap());
    assert_eq!(rank(&list), sorted);
    assert!(rank(&vec![]).is_empty());
}

#[test]
fn each_vertex_keeps_its_four_strongest_influences() {
    let bones = bone_names(&vec![bone("r", None), bone("a", Some(0)), bone("b", Some(0)), bone("c", Some(0)), bone("d", Some(0))]);
    let influences = vec![
        influence("a", &[(0, 0.1), (1, 1.0), (7, 1.0)]),
        influence("ghost", &[(0, 5.0)]),
        influence("b", &[(0, 0.4)]),
        influence("c", &[(0, 0.2)]),
        influence("d", &[(0, 0.3)]),
        influence("r", &[(0, 0.05), (0, 0.6)]),
    ];
    let out = vertex_influences(&influences, &bones, 65536, 3);
    assert_eq!(out.len(), 3);
    assert_eq!(out[0], vec![(0usize, s(0.6)), (2, s(0.4)), (4, s(0.3)), (3, s(0.2))]);
    assert_eq!(out[1], vec![(1usize, s(1.0))]);
    assert!(out[2].is_empty());
}

#[test]
fn a_vertex_is_bound_by_the_shares_of_its_influences() {
    let blend = VertexBlend { total: s(0.75), shares: [s(2.0 / 3.0), s(1.0 / 3.0), s(9.0), s(9.0)] };
    let (joints, weights) = bind_vertex(&vec![(7, s(0.5)), (3, s(0.25))], &blend);
    assert_eq!(joints, [7, 3, 0, 0]);
    assert_eq!(weights, [s(2.0 / 3.0), s(1.0 / 3.0), s(0.0), s(0.0)]);
    let sum: f32 = weights.iter().map(|w| f(*w)).sum();
    assert!((sum - 1.0).abs() <= 1e-5);
}

#[test]
fn the_weights_of_a_bound_vertex_sum_to_one() {
    let lists: Vec<Vec<(usize, f32)>> = vec![
        vec![(0, 0.3), (1, 0.3), (2, 0.3)],
        vec![(4, 0.9), (3, 0.05), (2, 0.03), (1, 0.02), (0, 0.01)],
        vec![(7, 1e-3)],
        vec![(1, 0.5), (2, 0.25), (3, 0.125), (4, 0.125)],
        vec![],
        vec![(1, 0.0), (2, 0.0)],
    ];
    for list in lists {
        let given: Vec<(usize, Scalar)> = list.iter().map(|(j, w)| (*j, s(*w))).collect();
        let selected: Vec<(usize, Scalar)> = rank(&given).into_iter().take(4).collect();
        let total: f32 = selected.iter().map(|(_, w)| f(*w)).sum();
        let mut shares = [s(0.0); 4];
        for (slot, (_, w)) in selected.iter().enumerate() {
            shares[slot] = s(f(*w) / total);
        }
        let (_, weights) = bind_vertex(&selected, &VertexBlend { total: s(total), shares });
        let sum: f32 = weights.iter().map(|w| f(*w)).sum();
        assert!((sum - 1.0).abs() <= 1e-5, "{:?} sums to {}", list, sum);
    }
}

#[test]
fn a_vertex_without_influences_or_weight_is_bound_to_the_first_bone() {
    let blend = VertexBlend { total: s(0.0), shares: [s(f32::NAN); 4] };
    assert_eq!(bind_vertex(&vec![], &blend), ([0, 0, 0, 0], [s(1.0), s(0.0), s(0.0), s(0.0)]));
    assert_eq!(
        bind_vertex(&vec![(4, s(0.0)), (5, s(0.0))], &blend),
        ([0, 0, 0, 0], [s(1.0), s(0.0), s(0.0), s(0.0)])
    );
    let negative = VertexBlend { total: s(-1.0), shares: [s(1.0); 4] };
    assert_eq!(bind_vertex(&vec![(4, s(-1.0))], &negative), ([0, 0, 0, 0], [s(1.0), s(0.0), s(0.0), s(0.0)]));
}

#[test]
fn skin_streams_bind_every_vertex() {
    let selected = vec![vec![(1usize, s(0.5)), (2, s(0.5))], vec![]];
    let blends = [
        VertexBlend { total: s(1.0), shares: [s(0.5), s(0.5), s(0.0), s(0.0)] },
        VertexBlend { total: s(0.0), shares: [s(0.0); 4] },
    ];
    let streams = skin_streams(&selected, &blends).unwrap();
    assert_eq!(streams.joints, vec![[1, 2, 0, 0], [0, 0, 0, 0]]);
    assert_eq!(streams.weights, vec![[s(0.5), s(0.5), s(0.0), s(0.0)], [s(1.0), s(0.0), s(0.0), s(0.0)]]);
    assert_eq!(skin_streams(&selected, &blends[..1]), None);
}

#[test]
fn an_object_is_bound_to_its_strongest_influences() {
    let skel = skeleton(vec![bone("a", None), bone("b", Some(0)), bone("c", Some(1))]);
    let mut o = object("body", vec![v3(0.0, 0.0, 0.0), v3(1.0, 0.0, 0.0)]);
    o.bone_influences = vec![influence("c", &[(0, 0.25)]), influence("b", &[(0, 0.75)]), influence("nobody", &[(1, 1.0)])];
    let blends = blends_of(&o, &skel);
    let streams = bind_object(&o, &skel, &blends).unwrap();
    assert_eq!(streams.joints, vec![[1, 2, 0, 0], [0, 0, 0, 0]]);
    assert_eq!(streams.weights, vec![[s(0.75), s(0.25), s(0.0), s(0.0)], [s(1.0), s(0.0), s(0.0), s(0.0)]]);
    assert_eq!(bind_object(&o, &skel, &blends[..1]), None);
    assert_eq!(bind_object(&o, &skel, &[]), None);
}

#[test]
fn an_object_is_laid_out_stream_by_stream() {
    let skel = skeleton(vec![bone("r", None)]);
    let mut o = object("body", vec![v3(0.0, 0.0, 0.0), v3(1.0, 0.0, 0.0), v3(0.0, 1.0, 0.0)]);
    o.normals = vec![attribute3(vec![v3(0.0, 0.0, 1.0); 3])];
    o.texture_coordinates = vec![AttributeData { name: String::new(), data: VectorData::Vector2(vec![[s(0.0); 2]; 3]) }];
    o.vertex_indices = vec![0, 1, 2];
    o.bone_influences = vec![influence("r", &[(0, 1.0)])];
    let rigid = object("prop", vec![v3(0.0, 0.0, 0.0)]);
    let mut hollow = object("hollow", vec![]);
    hollow.positions.clear();
    let blends = vec![blends_of(&o, &skel), vec![], vec![]];
    let mesh = MeshData { major_version: 1, minor_version: 10, objects: vec![o, hollow, rigid], is_vs2: false };
    let (mut data, mut views, mut accessors, mut meshes, mut materials) = (vec![], vec![], vec![], vec![], vec![]);
    let count =
        process_mesh_data(&mesh, Some(&skel), &blends, &mut data, &mut views, &mut accessors, &mut meshes, &mut materials);
    assert_eq!(count, Ok(2));
    assert_eq!(materials.len(), 1);
    assert_eq!(materials[0].name, "DefaultMaterial");
    assert_eq!(materials[0].base_color_factor, [s(1.0); 4]);
    assert_eq!(materials[0].metallic_factor, s(0.0));
    assert_eq!(materials[0].roughness_factor, s(1.0));
    assert_eq!(materials[0].emissive_factor, [s(0.0); 3]);
    assert!(!materials[0].double_sided);
    assert_eq!(meshes[0].name, "body");
    assert_eq!(
        meshes[0].primitive,
        Primitive { position: 0, normal: Some(1), texcoord: Some(2), joints: Some(3), weights: Some(4), indices: Some(5), material: 0 }
    );
    assert_eq!(meshes[1].name, "prop");
    assert_eq!(
        meshes[1].primitive,
        Primitive { position: 6, normal: None, texcoord: None, joints: None, weights: None, indices: None, material: 0 }
    );
    assert_eq!(accessors.len(), 7);
    assert_eq!(views.len(), 7);
    // 36 + 36 + 24 + 24 + 48 + 12 bytes for the body, 12 for the prop
    assert_eq!(data.len(), 192);
    assert_eq!(views[6].byte_offset, 180);
    assert!(accessors[0].bounds.is_some());
    assert!(accessors[1].bounds.is_none());
    assert!(accessors[6].bounds.is_some());
    // every vertex of the body is bound to the one bone
    assert_eq!(u16s(&data[96..120]), vec![0u16; 12]);
    assert_eq!(f32s(&data[120..168]), vec![1.0, 0.0, 0.0, 0.0, 1.0, 0.0, 0.0, 0.0, 1.0, 0.0, 0.0, 0.0]);

    // without a skeleton the same object gets no skin, and its blends are not looked at
    let (mut data, mut views, mut accessors, mut meshes, mut materials) = (vec![], vec![], vec![], vec![], vec![]);
    process_mesh_data(&mesh, None, &blends, &mut data, &mut views, &mut accessors, &mut meshes, &mut materials).unwrap();
    assert_eq!(
        meshes[0].primitive,
        Primitive { position: 0, normal: Some(1), texcoord: Some(2), joints: None, weights: None, indices: Some(3), material: 0 }
    );
}

#[test]
fn the_four_strongest_of_five_influences_are_laid_out_strongest_first() {
    let names = ["B0", "B1", "B2", "B3", "B4"];
    let weights = [0.0625, 0.125, 0.375, 0.5, 1.0];
    let skel = skeleton(names.iter().map(|n| bone(n, None)).collect());
    let mut o = object("one", vec![v3(0.0, 0.0, 0.0)]);
    o.bone_influences = names.iter().zip(weights.iter()).map(|(n, w)| influence(n, &[(0, *w)])).collect();
    let blends = vec![blends_of(&o, &skel)];
    let mesh = MeshData { major_version: 1, minor_version: 10, objects: vec![o], is_vs2: false };
    let (mut data, mut views, mut accessors, mut meshes, mut materials) = (vec![], vec![], vec![], vec![], vec![]);
    let count =
        process_mesh_data(&mesh, Some(&skel), &blends, &mut data, &mut views, &mut accessors, &mut meshes, &mut materials);
    assert_eq!(count, Ok(1));
    assert_eq!(data.len(), 36);
    assert_eq!(u16s(&data[12..20]), vec![4, 3, 2, 1]);
    assert_eq!(f32s(&data[20..36]), vec![0.5, 0.25, 0.1875, 0.0625]);
}

#[test]
fn a_vertex_without_a_usable_influence_is_laid_out_on_the_first_bone() {
    let skel = skeleton(vec![bone("root", None), bone("arm", Some(0))]);
    let mut o = object("body", vec![v3(0.0, 0.0, 0.0), v3(1.0, 0.0, 0.0), v3(2.0, 0.0, 0.0)]);
    // vertex 0 is bound to the arm, vertex 1 only to an unknown bone, vertex 2 only by weights of zero
    o.bone_influences = vec![
        influence("arm", &[(0, 0.5), (2, 0.0)]),
        influence("unknown", &[(1, 1.0)]),
        influence("root", &[(2, 0.0)]),
    ];
    let blends = vec![blends_of(&o, &skel)];
    let mesh = MeshData { major_version: 1, minor_version: 10, objects: vec![o], is_vs2: false };
    let (mut data, mut views, mut accessors, mut meshes, mut materials) = (vec![], vec![], vec![], vec![], vec![]);
    let count =
        process_mesh_data(&mesh, Some(&skel), &blends, &mut data, &mut views, &mut accessors, &mut meshes, &mut materials);
    assert_eq!(count, Ok(1));
    assert_eq!(data.len(), 36 + 24 + 48);
    assert_eq!(u16s(&data[36..60]), vec![1, 0, 0, 0, 0, 0, 0, 0, 0, 0, 0, 0]);
    assert_eq!(f32s(&data[60..108]), vec![1.0, 0.0, 0.0, 0.0, 1.0, 0.0, 0.0, 0.0, 1.0, 0.0, 0.0, 0.0]);
}

#[test]
fn blends_that_do_not_fit_change_nothing() {
    let skel = skeleton(vec![bone("r", None)]);
    let mut skinned = object("a", vec![v3(0.0, 0.0, 0.0), v3(1.0, 0.0, 0.0)]);
    skinned.bone_influences = vec![influence("r", &[(0, 1.0)])];
    let mesh = MeshData {
        major_version: 1,
        minor_version: 10,
        objects: vec![object("prop", vec![v3(0.0, 0.0, 0.0)]), skinned],
        is_vs2: false,
    };
    let (mut data, mut views, mut accessors, mut meshes, mut materials) = (vec![1u8], vec![], vec![], vec![], vec![]);
    let r = process_mesh_data(&mesh, Some(&skel), &[], &mut data, &mut views, &mut accessors, &mut meshes, &mut materials);
    assert_eq!(r, Err(DaeError::BlendListsMismatch { objects: 2, lists: 0 }));
    let one = VertexBlend { total: s(1.0), shares: [s(1.0), s(0.0), s(0.0), s(0.0)] };
    let short = vec![vec![], vec![one]];
    let r = process_mesh_data(&mesh, Some(&skel), &short, &mut data, &mut views, &mut accessors, &mut meshes, &mut materials);
    assert_eq!(r, Err(DaeError::BlendsMismatch { object_index: 1, vertices: 2, blends: 1 }));
    assert_eq!(data, vec![1u8]);
    assert!(views.is_empty() && accessors.is_empty() && meshes.is_empty() && materials.is_empty());
    // the blends of an object without a skin are not looked at
    let fitting = vec![vec![one; 5], vec![one, one]];
    let r = process_mesh_data(&mesh, Some(&skel), &fitting, &mut data, &mut views, &mut accessors, &mut meshes, &mut materials);
    assert_eq!(r, Ok(2));
    let r = process_mesh_data(&mesh, None, &short, &mut data, &mut views, &mut accessors, &mut meshes, &mut materials);
    assert_eq!(r, Ok(4));
}

fn transform(x: f32) -> NodeTransform {
    NodeTransform { translation: v3(x, 0.0, 0.0), rotation: [s(0.0), s(0.0), s(0.0), s(1.0)], scale: v3(1.0, 1.0, 1.0) }
}

#[test]
fn every_bone_gets_a_node_with_its_children() {
    let skel = skeleton(vec![bone("root", None), bone("a", Some(0)), bone("b", Some(0)), bone("tip", Some(2)), bone("other", None)]);
    let transforms: Vec<NodeTransform> = (0..5).map(|i| transform(i as f32)).collect();
    let mut nodes: Vec<GltfNode> = Vec::new();
    assert_eq!(process_skeleton_data(&skel, &transforms, &mut nodes), Ok(()));
    let listed: Vec<(&str, Vec<usize>)> = nodes.iter().map(|n| (n.name.as_str(), n.children.clone())).collect();
    assert_eq!(
        listed,
        vec![("root", vec![1, 2]), ("a", vec![]), ("b", vec![3]), ("tip", vec![]), ("other", vec![])]
    );
    assert_eq!(nodes[3].transform, Some(transform(3.0)));
    assert!(nodes.iter().all(|n| n.mesh.is_none() && n.skin.is_none()));
    let mut untouched: Vec<GltfNode> = Vec::new();
    assert_eq!(
        process_skeleton_data(&skel, &transforms[..2], &mut untouched),
        Err(DaeError::TransformsMismatch { bones: 5, transforms: 2 })
    );
    assert!(untouched.is_empty());
}

#[test]
fn every_mesh_gets_a_node_named_by_its_number() {
    let mut nodes: Vec<GltfNode> = Vec::new();
    create_mesh_nodes(12, Some(0), &mut nodes);
    assert_eq!(nodes.len(), 12);
    assert_eq!(nodes[0].name, "MeshNode_0");
    assert_eq!(nodes[11].name, "MeshNode_11");
    assert_eq!(nodes[11].mesh, Some(11));
    assert_eq!(nodes[11].skin, Some(0));
    assert_eq!(nodes[11].transform, None);
    assert!(nodes[11].children.is_empty());
    create_mesh_nodes(0, None, &mut nodes);
    assert_eq!(nodes.len(), 12);
}

#[test]
fn the_skin_lists_every_bone_as_a_joint() {
    let skel = skeleton(vec![bone("root", None), bone("a", Some(0))]);
    let (mut data, mut views, mut accessors, mut skins) = (vec![], vec![], vec![], vec![]);
    let matrices = [[s(1.0); 16], [s(2.0); 16]];
    assert_eq!(create_skin(&skel, &matrices, &mut data, &mut views, &mut accessors, &mut skins), Ok(0));
    assert_eq!(skins.len(), 1);
    assert_eq!(skins[0].name, "Skeleton");
    assert_eq!(skins[0].joints, vec![0, 1]);
    assert_eq!(skins[0].inverse_bind_matrices, 0);
    assert_eq!(data.len(), 128);
    assert_eq!(accessors[0].element_type, ElementType::Mat4);
    assert_eq!(accessors[0].count, 2);
    assert_eq!(
        create_skin(&skel, &matrices[..1], &mut data, &mut views, &mut accessors, &mut skins),
        Err(DaeError::MatricesMismatch { bones: 2, matrices: 1 })
    );
    assert_eq!(skins.len(), 1);
    assert_eq!(data.len(), 128);
}

#[test]
fn a_whole_asset_is_assembled() {
    let skel = skeleton(vec![bone("root", None), bone("a", Some(0)), bone("free", None)]);
    let mut body = object("body", vec![v3(0.0, 0.0, 0.0), v3(1.0, 0.0, 0.0)]);
    body.bone_influences = vec![influence("a", &[(0, 1.0)])];
    let mesh = MeshData { major_version: 1, minor_version: 10, objects: vec![body, object("prop", vec![v3(0.0, 0.0, 0.0)])], is_vs2: false };
    let arithmetic = GltfArithmetic {
        node_transforms: vec![transform(0.0), transform(1.0), transform(2.0)],
        blends: vec![blends_of(&mesh.objects[0], &skel), vec![]],
        inverse_bind_matrices: vec![[s(0.0); 16]; 3],
    };
    let doc = assemble_gltf(Some(&mesh), Some(&skel), &arithmetic).unwrap();
    assert_eq!(doc.generator, "SSBH Editor");
    assert_eq!(doc.version, "2.0");
    assert_eq!(doc.nodes.len(), 5);
    assert_eq!(doc.nodes[3].name, "MeshNode_0");
    assert_eq!(doc.nodes[3].skin, Some(0));
    assert_eq!(doc.nodes[4].mesh, Some(1));
    assert_eq!(doc.scene_nodes, vec![0, 2, 3, 4]);
    assert_eq!(doc.meshes.len(), 2);
    assert_eq!(doc.materials.len(), 1);
    assert_eq!(doc.skins.len(), 1);
    assert_eq!(doc.skins[0].joints, vec![0, 1, 2]);
    // body: positions, joints, weights; prop: positions; then the matrices
    assert_eq!(doc.skins[0].inverse_bind_matrices, 4);
    assert_eq!(doc.accessors.len(), 5);
    assert_eq!(doc.buffer_data.len(), 24 + 16 + 32 + 12 + 192);
    // the first vertex is bound to bone `a`, the second for want of an influence to the first bone
    assert_eq!(u16s(&doc.buffer_data[24..40]), vec![1, 0, 0, 0, 0, 0, 0, 0]);
    assert_eq!(f32s(&doc.buffer_data[40..72]), vec![1.0, 0.0, 0.0, 0.0, 1.0, 0.0, 0.0, 0.0]);
    let mut end = 0;
    for (position, view) in doc.buffer_views.iter().enumerate() {
        assert_eq!(view.byte_offset, end);
        assert_eq!(view.byte_offset % 4, 0);
        assert_eq!(doc.accessors[position].buffer_view, position);
        end += view.byte_length;
    }
    assert_eq!(end, doc.buffer_data.len());
    let buffer = doc.buffer.unwrap();
    assert_eq!(buffer.byte_length, doc.buffer_data.len());
    assert_eq!(buffer.uri, "scene.bin");
}

#[test]
fn an_asset_without_meshes_or_bones_is_empty() {
    let nothing = GltfArithmetic { node_transforms: vec![], blends: vec![], inverse_bind_matrices: vec![] };
    let doc = assemble_gltf(None, None, &nothing).unwrap();
    assert!(doc.buffer.is_none());
    assert!(doc.buffer_data.is_empty() && doc.nodes.is_empty() && doc.meshes.is_empty());
    assert!(doc.materials.is_empty() && doc.skins.is_empty() && doc.scene_nodes.is_empty());

    let mesh = MeshData { major_version: 1, minor_version: 10, objects: vec![object("prop", vec![v3(0.0, 0.0, 0.0)])], is_vs2: false };
    let rigid = GltfArithmetic { node_transforms: vec![], blends: vec![vec![]], inverse_bind_matrices: vec![] };
    let doc = assemble_gltf(Some(&mesh), None, &rigid).unwrap();
    assert_eq!(doc.scene_nodes, vec![0]);
    assert!(doc.skins.is_empty());
    assert_eq!(doc.nodes[0].skin, None);
}

#[test]
fn what_arithmetic_gives_has_to_fit_the_asset() {
    let skel = skeleton(vec![bone("root", None)]);
    let mut body = object("body", vec![v3(0.0, 0.0, 0.0)]);
    body.bone_influences = vec![influence("root", &[(0, 1.0)])];
    let mesh = MeshData { major_version: 1, minor_version: 10, objects: vec![body], is_vs2: false };
    let mut arithmetic = GltfArithmetic { node_transforms: vec![], blends: vec![], inverse_bind_matrices: vec![] };
    assert_eq!(
        assemble_gltf(Some(&mesh), Some(&skel), &arithmetic),
        Err(DaeError::TransformsMismatch { bones: 1, transforms: 0 })
    );
    arithmetic.node_transforms = vec![transform(0.0)];
    assert_eq!(
        assemble_gltf(Some(&mesh), Some(&skel), &arithmetic),
        Err(DaeError::BlendListsMismatch { objects: 1, lists: 0 })
    );
    arithmetic.blends = vec![vec![]];
    assert_eq!(
        assemble_gltf(Some(&mesh), Some(&skel), &arithmetic),
        Err(DaeError::BlendsMismatch { object_index: 0, vertices: 1, blends: 0 })
    );
    arithmetic.blends = vec![blends_of(&mesh.objects[0], &skel)];
    assert_eq!(
        assemble_gltf(Some(&mesh), Some(&skel), &arithmetic),
        Err(DaeError::MatricesMismatch { bones: 1, matrices: 0 })
    );
    arithmetic.inverse_bind_matrices = vec![[s(0.0); 16]];
    assert!(assemble_gltf(Some(&mesh), Some(&skel), &arithmetic).is_ok());
}

#[test]
fn world_transforms_are_computed_parents_first() {
    let bones = vec![bone("tip", Some(2)), bone("root", None), bone("mid", Some(1)), bone("other", Some(1))];
    assert_eq!(bind_pose_order(&bones), Some(vec![1, 2, 0, 3]));
    assert_eq!(bind_pose_order(&vec![]), Some(vec![]));
    let chain: Vec<BoneData> = (0..50).map(|i| bone("b", if i == 49 { None } else { Some(i + 1) })).collect();
    let order = bind_pose_order(&chain).unwrap();
    assert_eq!(order, (0..50).rev().collect::<Vec<usize>>());
}

#[test]
fn a_broken_hierarchy_has_no_order() {
    assert_eq!(bind_pose_order(&vec![bone("a", Some(1)), bone("b", Some(0))]), None);
    assert_eq!(bind_pose_order(&vec![bone("a", Some(0))]), None);
    assert_eq!(bind_pose_order(&vec![bone("a", None), bone("b", Some(7))]), None);
}
