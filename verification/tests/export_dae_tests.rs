use dae_scene::collada::controller::{
    build_controller_element_json,
    col_major_to_row_major,
    mat4_to_row_major,
    weight_streams,
    ControllerWeights,
};
use dae_scene::collada::document::{
    build_collada,
    build_skeleton_node_recursive_json,
    DaeArithmetic,
};
use dae_scene::collada::geometry::build_geometry_element_json;
use dae_scene::collada::ids::{join_numbers, join_words, joined, sanitize_id};
use dae_scene::collada::scene::{
    build_intermediate_scene,
    DaeExportConfig,
    JsonBone,
    JsonMeshObject,
    JsonScene,
};
use dae_scene::collada::sources::{
    build_asset,
    build_source_float_array,
    build_source_float_vec2,
    build_source_float_vec3,
    build_source_mat4_array,
    build_source_name_array,
};
use dae_scene::error::DaeError;
use dae_scene::model::{identity, UpAxisConversion};
use dae_scene::read::geometry::{
    extract_indices_from_xml_mesh,
    extract_normals_from_xml_mesh,
    extract_uvs_from_xml_mesh,
    extract_vertices_from_xml_mesh,
};
use dae_scene::records::{
    AttributeData,
    BillboardType,
    BoneData,
    BoneInfluence,
    MeshData,
    MeshObjectData,
    SkelData,
    VectorData,
    VertexWeight,
};
use dae_scene::scalar::Scalar;
use dae_scene::xml::{
    find_all_children,
    find_child,
    get_attribute,
    get_element_text,
    XmlElement,
    XmlNode,
};

fn s(v: f32) -> Scalar {
    Scalar::from_bits(v.to_bits())
}

fn v3(x: f32, y: f32, z: f32) -> [Scalar; 3] {
    [s(x), s(y), s(z)]
}

fn attr<'a>(e: &'a XmlElement, key: &str) -> &'a str {
    get_attribute(e, key).map(|v| v.as_str()).unwrap_or("<none>")
}

fn text(e: &XmlElement) -> String {
    get_element_text(e).unwrap().text.clone()
}

fn numbers(e: &XmlElement) -> Vec<f32> {
    let t = get_element_text(e).unwrap();
    assert_eq!(t.text, "");
    t.scalars.iter().map(|x| f32::from_bits(x.unwrap().to_bits())).collect()
}

fn names(e: &XmlElement) -> Vec<&str> {
    e.children
        .iter()
        .map(|c| match c {
            XmlNode::Element(x) => x.name.as_str(),
            _ => "<other>",
        })
        .collect()
}

fn path<'a>(e: &'a XmlElement, steps: &[&str]) -> &'a XmlElement {
    let mut at = e;
    for step in steps {
        at = find_child(at, step).unwrap_or_else(|| panic!("no {}", step));
    }
    at
}

fn influence(name: &str, weights: &[(u32, f32)]) -> BoneInfluence {
    BoneInfluence {
        bone_name: name.to_string(),
        vertex_weights: weights.iter().map(|w| VertexWeight { vertex_index: w.0, vertex_weight: s(w.1) }).collect(),
    }
}

fn mesh_object(name: &str) -> JsonMeshObject {
    JsonMeshObject {
        name: name.to_string(),
        vertex_indices: vec![0, 1, 2, 2, 1],
        positions: vec![v3(0.0, 0.0, 0.0), v3(1.0, 0.0, 0.0), v3(0.0, 1.0, 0.0)],
        normals: None,
        texcoords0: None,
        bone_influences: vec![],
    }
}

fn bone(name: &str, parent: Option<usize>) -> JsonBone {
    JsonBone { name: name.to_string(), transform: identity(), parent_index: parent }
}

#[test]
fn ids_keep_letters_numbers_underscores_and_hyphens() {
    assert_eq!(sanitize_id("Left Arm.01"), "Left_Arm_01");
    assert_eq!(sanitize_id("a-b_c"), "a-b_c");
    assert_eq!(sanitize_id(""), "id");
    assert_eq!(sanitize_id("é漢٣ #"), "é漢٣__");
    assert_eq!(sanitize_id("   "), "___");
    for text in ["x/y", "tab\tbed", "ℵ½", "a\u{301}"] {
        let expected: String = text.chars().map(|c| if c.is_alphanumeric() || c == '_' || c == '-' { c } else { '_' }).collect();
        assert_eq!(sanitize_id(text), expected);
    }
}

#[test]
fn texts_are_joined() {
    assert_eq!(joined("#", "id"), "#id");
    assert_eq!(join_words(&vec!["a".to_string(), "b c".to_string(), "".to_string(), "d".to_string()]), "a b c  d");
    assert_eq!(join_words(&vec![]), "");
    assert_eq!(join_words(&vec!["only".to_string()]), "only");
    assert_eq!(join_numbers(&vec![0, 12, 7]), "0 12 7");
    assert_eq!(join_numbers(&vec![]), "");
}

#[test]
fn the_default_export_keeps_scale_and_axes() {
    let c = DaeExportConfig::default();
    assert_eq!(c.up_axis, UpAxisConversion::YUp);
    assert_eq!(f32::from_bits(c.scale_factor.to_bits()), 1.0);
}

#[test]
fn the_asset_names_the_up_axis() {
    for (axis, name) in [(UpAxisConversion::YUp, "Y_UP"), (UpAxisConversion::ZUp, "Z_UP"), (UpAxisConversion::NoConversion, "Y_UP")] {
        let asset = build_asset(&DaeExportConfig { up_axis: axis, scale_factor: s(1.0) });
        assert_eq!(asset.name, "asset");
        assert_eq!(names(&asset), vec!["up_axis"]);
        assert_eq!(text(path(&asset, &["up_axis"])), name);
    }
}

#[test]
fn a_source_of_numbers_has_an_array_and_an_accessor() {
    let source = build_source_float_array("src", &vec![s(1.0), s(2.0), s(3.0), s(4.0), s(5.0), s(6.0), s(7.0)], 3);
    assert_eq!(source.name, "source");
    assert_eq!(source.attributes, vec![("id".to_string(), "src".to_string())]);
    assert_eq!(names(&source), vec!["float_array", "technique_common"]);
    let array = path(&source, &["float_array"]);
    assert_eq!(array.attributes, vec![("id".to_string(), "src-array".to_string()), ("count".to_string(), "7".to_string())]);
    assert_eq!(numbers(array), vec![1.0, 2.0, 3.0, 4.0, 5.0, 6.0, 7.0]);
    let accessor = path(&source, &["technique_common", "accessor"]);
    assert_eq!(
        accessor.attributes,
        vec![
            ("source".to_string(), "#src-array".to_string()),
            ("count".to_string(), "2".to_string()),
            ("stride".to_string(), "3".to_string()),
        ]
    );
    let params: Vec<(&str, &str)> = find_all_children(accessor, "param").iter().map(|p| (attr(p, "name"), attr(p, "type"))).collect();
    assert_eq!(params, vec![("X", "float"), ("Y", "float"), ("Z", "float")]);
}

#[test]
fn parameters_go_by_the_stride() {
    let two = build_source_float_vec2("uv", &vec![[s(0.5), s(0.25)]]);
    let params: Vec<&str> = find_all_children(path(&two, &["technique_common", "accessor"]), "param").iter().map(|p| attr(p, "name")).collect();
    assert_eq!(params, vec!["S", "T"]);
    assert_eq!(numbers(path(&two, &["float_array"])), vec![0.5, 0.25]);
    let three = build_source_float_vec3("p", &vec![v3(1.0, 2.0, 3.0), v3(4.0, 5.0, 6.0)]);
    assert_eq!(numbers(path(&three, &["float_array"])), vec![1.0, 2.0, 3.0, 4.0, 5.0, 6.0]);
    assert_eq!(attr(path(&three, &["technique_common", "accessor"]), "count"), "2");
    let one = build_source_float_array("w", &vec![s(1.0), s(0.5)], 1);
    assert!(find_all_children(path(&one, &["technique_common", "accessor"]), "param").is_empty());
    assert_eq!(attr(path(&one, &["technique_common", "accessor"]), "count"), "2");
    let mut m = [s(0.0); 16];
    for i in 0..16 {
        m[i] = s(i as f32);
    }
    let matrices = build_source_mat4_array("ibm", &[m, m]);
    assert_eq!(attr(path(&matrices, &["float_array"]), "count"), "32");
    assert_eq!(numbers(path(&matrices, &["float_array"])).len(), 32);
    assert_eq!(numbers(path(&matrices, &["float_array"]))[17], 1.0);
    let accessor = path(&matrices, &["technique_common", "accessor"]);
    assert_eq!((attr(accessor, "count"), attr(accessor, "stride")), ("2", "16"));
    assert!(accessor.children.is_empty());
}

#[test]
fn a_source_of_names_lists_joints() {
    let source = build_source_name_array("j", &vec!["Hip".to_string(), "Knee".to_string()]);
    let array = path(&source, &["Name_array"]);
    assert_eq!((attr(array, "id"), attr(array, "count")), ("j-array", "2"));
    assert_eq!(text(array), "Hip Knee");
    let accessor = path(&source, &["technique_common", "accessor"]);
    assert_eq!((attr(accessor, "source"), attr(accessor, "count"), attr(accessor, "stride")), ("#j-array", "2", "1"));
    let param = path(accessor, &["param"]);
    assert_eq!((attr(param, "name"), attr(param, "type")), ("JOINT", "name"));
}

#[test]
fn a_geometry_holds_sources_vertices_and_triangles() {
    let mut m = mesh_object("Left Arm");
    m.normals = Some(vec![v3(0.0, 0.0, 1.0); 3]);
    m.texcoords0 = Some(vec![[s(0.0), s(0.0)]; 3]);
    let geometry = build_geometry_element_json(&m, 4);
    assert_eq!(geometry.name, "geometry");
    assert_eq!((attr(&geometry, "id"), attr(&geometry, "name")), ("geom_4_Left_Arm", "Left Arm"));
    let mesh = path(&geometry, &["mesh"]);
    assert_eq!(names(mesh), vec!["source", "source", "source", "vertices", "triangles"]);
    let ids: Vec<&str> = find_all_children(mesh, "source").iter().map(|x| attr(x, "id")).collect();
    assert_eq!(ids, vec!["geom_4_Left_Arm-positions", "geom_4_Left_Arm-normals", "geom_4_Left_Arm-texcoord0"]);
    let vertices = path(mesh, &["vertices"]);
    assert_eq!(attr(vertices, "id"), "geom_4_Left_Arm-vertices");
    let input = path(vertices, &["input"]);
    assert_eq!((attr(input, "semantic"), attr(input, "source")), ("POSITION", "#geom_4_Left_Arm-positions"));
    let triangles = path(mesh, &["triangles"]);
    assert_eq!(attr(triangles, "count"), "1");
    let inputs: Vec<(&str, &str, &str, &str)> = find_all_children(triangles, "input")
        .iter()
        .map(|i| (attr(i, "semantic"), attr(i, "source"), attr(i, "offset"), attr(i, "set")))
        .collect();
    assert_eq!(
        inputs,
        vec![
            ("VERTEX", "#geom_4_Left_Arm-vertices", "0", "<none>"),
            ("NORMAL", "#geom_4_Left_Arm-normals", "1", "<none>"),
            ("TEXCOORD", "#geom_4_Left_Arm-texcoord0", "2", "0"),
        ]
    );
    assert_eq!(text(path(triangles, &["p"])), "0 0 0 1 1 1 2 2 2 2 2 2 1 1 1");
}

#[test]
fn a_geometry_without_normals_reads_texture_coordinates_at_offset_one() {
    let mut m = mesh_object("m");
    m.texcoords0 = Some(vec![[s(0.0), s(0.0)]; 3]);
    let geometry = build_geometry_element_json(&m, 0);
    let triangles = path(&geometry, &["mesh", "triangles"]);
    let inputs: Vec<(&str, &str)> = find_all_children(triangles, "input").iter().map(|i| (attr(i, "semantic"), attr(i, "offset"))).collect();
    assert_eq!(inputs, vec![("VERTEX", "0"), ("TEXCOORD", "1")]);
    assert_eq!(text(path(triangles, &["p"])), "0 0 1 1 2 2 2 2 1 1");
    let bare = build_geometry_element_json(&mesh_object(""), 12);
    assert_eq!(attr(&bare, "id"), "geom_12_id");
    assert_eq!(text(path(&bare, &["mesh", "triangles", "p"])), "0 1 2 2 1");
}

#[test]
fn what_is_written_into_a_geometry_is_read_back() {
    let mut full = mesh_object("Left Arm");
    full.normals = Some(vec![v3(0.0, 0.0, 1.0), v3(0.0, 1.0, 0.0), v3(1.0, 0.0, 0.0)]);
    full.texcoords0 = Some(vec![[s(0.0), s(0.5)], [s(1.0), s(0.25)], [s(0.75), s(0.0)]]);
    full.vertex_indices = vec![0, 1, 2, 2, 1, 0, 4294967295, 10, 7];
    let mut only_uvs = mesh_object("m");
    only_uvs.texcoords0 = full.texcoords0.clone();
    let mut empty = mesh_object("");
    empty.vertex_indices.clear();
    for m in [full, only_uvs, mesh_object("bare"), empty] {
        let geometry = build_geometry_element_json(&m, 3);
        let mesh = find_child(&geometry, "mesh").unwrap();
        assert_eq!(extract_indices_from_xml_mesh(mesh), m.vertex_indices);
        assert_eq!(extract_vertices_from_xml_mesh(mesh), m.positions);
        assert_eq!(extract_normals_from_xml_mesh(mesh), m.normals.clone().unwrap_or_default());
        assert_eq!(extract_uvs_from_xml_mesh(mesh), m.texcoords0.clone().unwrap_or_default());
    }
}

#[test]
fn matrices_are_laid_out_for_a_document() {
    let mut m = identity();
    for c in 0..4 {
        for r in 0..4 {
            m[c][r] = s((c * 4 + r) as f32);
        }
    }
    let flat: Vec<f32> = mat4_to_row_major(&m).iter().map(|x| f32::from_bits(x.to_bits())).collect();
    // the entry of row r and column c stands at 4 r + c
    assert_eq!(flat, vec![0.0, 4.0, 8.0, 12.0, 1.0, 5.0, 9.0, 13.0, 2.0, 6.0, 10.0, 14.0, 3.0, 7.0, 11.0, 15.0]);
    let mut c = [s(0.0); 16];
    for i in 0..16 {
        c[i] = s(i as f32);
    }
    let rows: Vec<f32> = col_major_to_row_major(&c).iter().map(|x| f32::from_bits(x.to_bits())).collect();
    assert_eq!(rows, vec![0.0, 4.0, 8.0, 12.0, 1.0, 5.0, 9.0, 13.0, 2.0, 6.0, 10.0, 14.0, 3.0, 7.0, 11.0, 15.0]);
}

#[test]
fn the_streams_of_a_controller_list_joints_and_places() {
    let selected = vec![vec![(2usize, s(0.75)), (0, s(0.25))], vec![], vec![(1, s(1.0))]];
    let slots = vec![vec![0, 1], vec![2], vec![2]];
    let streams = weight_streams(&selected, &slots).unwrap();
    assert_eq!(streams.counts, vec![2, 1, 1]);
    assert_eq!(streams.pairs, vec![2, 0, 0, 1, 0, 2, 1, 2]);
    assert_eq!(weight_streams(&selected, &vec![vec![0, 1], vec![], vec![2]]), None);
    assert_eq!(weight_streams(&selected, &vec![vec![0], vec![2], vec![2]]), None);
    assert_eq!(weight_streams(&selected, &vec![vec![0, 1], vec![2]]), None);
    let none = weight_streams(&vec![], &vec![]).unwrap();
    assert!(none.counts.is_empty() && none.pairs.is_empty());
}

#[test]
fn a_controller_holds_the_skin_of_a_mesh() {
    let mut m = mesh_object("arm");
    m.bone_influences = vec![influence("Knee", &[(0, 0.25), (2, 1.0)]), influence("Hip", &[(0, 0.75)]), influence("ghost", &[(1, 1.0)])];
    let bones = vec![bone("Hip", None), bone("Knee", Some(0))];
    let skin = ControllerWeights { weights: vec![s(0.75), s(0.25), s(1.0)], slots: vec![vec![0, 1], vec![2], vec![2]] };
    let matrices = [[s(1.0); 16], [s(2.0); 16]];
    let controller = build_controller_element_json(&m, 3, &bones, &matrices, &skin).unwrap();
    assert_eq!(controller.name, "controller");
    assert_eq!(attr(&controller, "id"), "ctrl_3_arm");
    let skin_element = path(&controller, &["skin"]);
    assert_eq!(attr(skin_element, "source"), "#geom_3_arm");
    assert_eq!(names(skin_element), vec!["bind_shape_matrix", "source", "source", "source", "joints", "vertex_weights"]);
    assert_eq!(
        numbers(path(skin_element, &["bind_shape_matrix"])),
        vec![1.0, 0.0, 0.0, 0.0, 0.0, 1.0, 0.0, 0.0, 0.0, 0.0, 1.0, 0.0, 0.0, 0.0, 0.0, 1.0]
    );
    let sources = find_all_children(skin_element, "source");
    assert_eq!(attr(sources[0], "id"), "ctrl_3_arm-joints");
    assert_eq!(text(path(sources[0], &["Name_array"])), "Hip Knee");
    assert_eq!(attr(sources[1], "id"), "ctrl_3_arm-bind_poses");
    assert_eq!(numbers(path(sources[1], &["float_array"])).len(), 32);
    assert_eq!(attr(sources[2], "id"), "ctrl_3_arm-weights");
    assert_eq!(numbers(path(sources[2], &["float_array"])), vec![0.75, 0.25, 1.0]);
    let joint_inputs: Vec<(&str, &str)> = find_all_children(path(skin_element, &["joints"]), "input").iter().map(|i| (attr(i, "semantic"), attr(i, "source"))).collect();
    assert_eq!(joint_inputs, vec![("JOINT", "#ctrl_3_arm-joints"), ("INV_BIND_MATRIX", "#ctrl_3_arm-bind_poses")]);
    let vertex_weights = path(skin_element, &["vertex_weights"]);
    assert_eq!(attr(vertex_weights, "count"), "3");
    let inputs: Vec<(&str, &str, &str)> = find_all_children(vertex_weights, "input").iter().map(|i| (attr(i, "semantic"), attr(i, "source"), attr(i, "offset"))).collect();
    assert_eq!(inputs, vec![("JOINT", "#ctrl_3_arm-joints", "0"), ("WEIGHT", "#ctrl_3_arm-weights", "1")]);
    assert_eq!(text(path(vertex_weights, &["vcount"])), "2 1 1");
    // vertex 0: Hip 0.75 at place 0, Knee 0.25 at place 1; vertex 1: no bone known, first joint; vertex 2: Knee
    assert_eq!(text(path(vertex_weights, &["v"])), "0 0 1 1 0 2 1 2");

    let unfit = ControllerWeights { weights: vec![], slots: vec![vec![0], vec![2], vec![2]] };
    assert_eq!(
        build_controller_element_json(&m, 3, &bones, &matrices, &unfit),
        Err(DaeError::WeightsMismatch { mesh_index: 3 })
    );
}

#[test]
fn bones_become_nested_joint_nodes() {
    let mut root = bone("Root Bone", None);
    root.transform[3] = [s(1.0), s(2.0), s(3.0), s(1.0)];
    let bones = vec![bone("tip", Some(2)), root, bone("mid", Some(1)), bone("side", Some(1))];
    let node = build_skeleton_node_recursive_json(&bones, 1, 4);
    assert_eq!(node.name, "node");
    assert_eq!(
        node.attributes,
        vec![
            ("id".to_string(), "Root_Bone".to_string()),
            ("name".to_string(), "Root Bone".to_string()),
            ("sid".to_string(), "Root Bone".to_string()),
            ("type".to_string(), "JOINT".to_string()),
        ]
    );
    assert_eq!(names(&node), vec!["matrix", "node", "node"]);
    assert_eq!(
        numbers(path(&node, &["matrix"])),
        vec![1.0, 0.0, 0.0, 1.0, 0.0, 1.0, 0.0, 2.0, 0.0, 0.0, 1.0, 3.0, 0.0, 0.0, 0.0, 1.0]
    );
    // a reader of the document gets the transform of the bone back
    assert_eq!(dae_scene::read::hierarchy::parse_node_transform(&node), bones[1].transform);
    let children = find_all_children(&node, "node");
    assert_eq!(attr(children[0], "name"), "mid");
    assert_eq!(attr(children[1], "name"), "side");
    assert_eq!(attr(path(children[0], &["node"]), "name"), "tip");
    assert_eq!(names(children[1]), vec!["matrix"]);
    let shallow = build_skeleton_node_recursive_json(&bones, 1, 1);
    assert_eq!(names(find_all_children(&shallow, "node")[0]), vec!["matrix"]);
    assert_eq!(names(&build_skeleton_node_recursive_json(&bones, 1, 0)), vec!["matrix"]);
}

#[test]
fn bones_that_are_written_are_read_back_depth_first() {
    let mut root = bone("Root Bone", None);
    root.transform[3] = [s(1.0), s(2.0), s(3.0), s(1.0)];
    let mut mid = bone("mid", Some(1));
    mid.transform[0] = [s(0.0), s(1.0), s(0.0), s(0.0)];
    mid.transform[1] = [s(-1.0), s(0.0), s(0.0), s(0.0)];
    let bones = vec![bone("tip", Some(2)), root.clone(), mid.clone(), bone("side", Some(1))];
    let node = build_skeleton_node_recursive_json(&bones, 1, 4);
    let mut read = Vec::new();
    dae_scene::read::hierarchy::parse_node_hierarchy(&node, None, &mut read);
    let listed: Vec<(&str, Option<usize>)> = read.iter().map(|b| (b.name.as_str(), b.parent_index)).collect();
    assert_eq!(listed, vec![("Root Bone", None), ("mid", Some(0)), ("tip", Some(1)), ("side", Some(0))]);
    assert_eq!(read[0].transform, root.transform);
    assert_eq!(read[1].transform, mid.transform);
    assert_eq!(read[2].transform, identity());
}

fn attribute3(data: Vec<[Scalar; 3]>) -> AttributeData {
    AttributeData { name: String::new(), data: VectorData::Vector3(data) }
}

fn record(name: &str, positions: Vec<AttributeData>) -> MeshObjectData {
    MeshObjectData {
        name: name.to_string(),
        subindex: 0,
        vertex_indices: vec![0, 1, 2],
        positions,
        normals: vec![],
        binormals: vec![],
        tangents: vec![],
        texture_coordinates: vec![],
        color_sets: vec![],
        bone_influences: vec![],
    }
}

#[test]
fn a_scene_is_gathered_from_a_mesh_file_and_a_skeleton() {
    let mut body = record("body", vec![attribute3(vec![v3(1.0, 2.0, 3.0)]), attribute3(vec![])]);
    body.normals = vec![AttributeData { name: String::new(), data: VectorData::Vector4(vec![[s(0.0), s(0.0), s(1.0), s(9.0)]]) }];
    body.texture_coordinates = vec![AttributeData { name: String::new(), data: VectorData::Vector3(vec![v3(0.5, 0.25, 7.0)]) }];
    body.bone_influences = vec![influence("Hip", &[(0, 1.0)])];
    let mesh = MeshData { major_version: 1, minor_version: 10, objects: vec![body, record("prop", vec![attribute3(vec![])])], is_vs2: false };
    let mut transform = identity();
    transform[3][0] = s(4.0);
    let skel = SkelData {
        major_version: 1,
        minor_version: 0,
        bones: vec![BoneData { name: "Hip".to_string(), transform, parent_index: None, billboard_type: BillboardType::Disabled }],
    };
    let scene = build_intermediate_scene(Some(&mesh), Some(&skel)).unwrap();
    assert_eq!(scene.meshes.len(), 2);
    assert_eq!(scene.meshes[0].name, "body");
    assert_eq!(scene.meshes[0].positions, vec![v3(1.0, 2.0, 3.0)]);
    assert_eq!(scene.meshes[0].normals, Some(vec![v3(0.0, 0.0, 1.0)]));
    assert_eq!(scene.meshes[0].texcoords0, Some(vec![[s(0.5), s(0.25)]]));
    assert_eq!(scene.meshes[0].vertex_indices, vec![0, 1, 2]);
    assert_eq!(scene.meshes[0].bone_influences, vec![influence("Hip", &[(0, 1.0)])]);
    assert_eq!(scene.meshes[1].normals, None);
    assert_eq!(scene.meshes[1].texcoords0, None);
    assert!(scene.meshes[1].positions.is_empty());
    assert_eq!(scene.bones, vec![JsonBone { name: "Hip".to_string(), transform, parent_index: None }]);
    assert!(build_intermediate_scene(Some(&mesh), None).unwrap().bones.is_empty());
}

#[test]
fn a_scene_needs_mesh_data_and_positions() {
    assert_eq!(build_intermediate_scene(None, None), Err(DaeError::NoMeshData));
    let mesh = MeshData {
        major_version: 1,
        minor_version: 10,
        objects: vec![record("a", vec![attribute3(vec![])]), record("bare", vec![]), record("bare too", vec![])],
        is_vs2: false,
    };
    assert_eq!(
        build_intermediate_scene(Some(&mesh), None),
        Err(DaeError::MeshWithoutPositions { mesh_name: "bare".to_string() })
    );
}

#[test]
fn a_whole_document_is_built() {
    let mut arm = mesh_object("arm");
    arm.bone_influences = vec![influence("Knee", &[(0, 1.0)])];
    let scene = JsonScene {
        meshes: vec![mesh_object("prop"), arm],
        bones: vec![bone("Knee", Some(1)), bone("Hip", None), bone("Free", None)],
    };
    let arithmetic = DaeArithmetic {
        inverse_bind_matrices: vec![[s(0.0); 16]; 3],
        skins: vec![
            ControllerWeights { weights: vec![], slots: vec![] },
            ControllerWeights { weights: vec![s(1.0)], slots: vec![vec![0], vec![0], vec![0]] },
        ],
    };
    let config = DaeExportConfig { up_axis: UpAxisConversion::ZUp, scale_factor: s(1.0) };
    let collada = build_collada(&scene, &config, &arithmetic).unwrap();
    assert_eq!(collada.name, "COLLADA");
    assert_eq!(
        collada.attributes,
        vec![
            ("xmlns".to_string(), "http://www.collada.org/2005/11/COLLADASchema".to_string()),
            ("version".to_string(), "1.4.1".to_string()),
        ]
    );
    assert_eq!(
        names(&collada),
        vec!["asset", "library_geometries", "library_controllers", "library_visual_scenes", "scene"]
    );
    assert_eq!(text(path(&collada, &["asset", "up_axis"])), "Z_UP");
    let geometries: Vec<&str> = find_all_children(path(&collada, &["library_geometries"]), "geometry").iter().map(|g| attr(g, "id")).collect();
    assert_eq!(geometries, vec!["geom_0_prop", "geom_1_arm"]);
    let controllers: Vec<&str> = find_all_children(path(&collada, &["library_controllers"]), "controller").iter().map(|g| attr(g, "id")).collect();
    assert_eq!(controllers, vec!["ctrl_1_arm"]);
    let visual_scene = path(&collada, &["library_visual_scenes", "visual_scene"]);
    assert_eq!((attr(visual_scene, "id"), attr(visual_scene, "name")), ("Scene", "Scene"));
    let nodes: Vec<(&str, &str)> = find_all_children(visual_scene, "node").iter().map(|n| (attr(n, "id"), attr(n, "name"))).collect();
    assert_eq!(nodes, vec![("Hip", "Hip"), ("Free", "Free"), ("mesh_0", "prop"), ("mesh_1", "arm")]);
    let all = find_all_children(visual_scene, "node");
    assert_eq!(attr(path(all[0], &["node"]), "name"), "Knee");
    assert_eq!(attr(path(all[2], &["instance_geometry"]), "url"), "#geom_0_prop");
    let instance = path(all[3], &["instance_controller"]);
    assert_eq!(attr(instance, "url"), "#ctrl_1_arm");
    assert_eq!(text(path(instance, &["skeleton"])), "#Hip");
    assert_eq!(attr(path(&collada, &["scene", "instance_visual_scene"]), "url"), "#Scene");
}

#[test]
fn without_bones_every_mesh_is_plain_geometry() {
    let mut arm = mesh_object("arm");
    arm.bone_influences = vec![influence("Knee", &[(0, 1.0)])];
    let scene = JsonScene { meshes: vec![arm], bones: vec![] };
    let arithmetic = DaeArithmetic { inverse_bind_matrices: vec![], skins: vec![ControllerWeights { weights: vec![], slots: vec![] }] };
    let collada = build_collada(&scene, &DaeExportConfig::default(), &arithmetic).unwrap();
    assert!(path(&collada, &["library_controllers"]).children.is_empty());
    let node = path(&collada, &["library_visual_scenes", "visual_scene", "node"]);
    assert_eq!(attr(path(node, &["instance_geometry"]), "url"), "#geom_0_arm");
}

#[test]
fn tables_of_weights_have_to_fit_the_scene() {
    let mut arm = mesh_object("arm");
    arm.bone_influences = vec![influence("Hip", &[(0, 1.0)])];
    let scene = JsonScene { meshes: vec![mesh_object("prop"), arm], bones: vec![bone("Hip", None)] };
    let config = DaeExportConfig::default();
    let none = DaeArithmetic { inverse_bind_matrices: vec![], skins: vec![] };
    assert_eq!(build_collada(&scene, &config, &none), Err(DaeError::SkinsMismatch { objects: 2, skins: 0 }));
    let unfit = DaeArithmetic {
        inverse_bind_matrices: vec![],
        skins: vec![ControllerWeights { weights: vec![], slots: vec![] }, ControllerWeights { weights: vec![], slots: vec![] }],
    };
    assert_eq!(build_collada(&scene, &config, &unfit), Err(DaeError::WeightsMismatch { mesh_index: 1 }));
}
