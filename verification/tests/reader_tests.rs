use dae_scene::error::DaeError;
use dae_scene::model::{DaeMesh, UpAxisConversion};
use dae_scene::read::document::{
    parse_controllers_and_apply_to_meshes,
    parse_dae_document,
    parse_geometries_from_xml,
    parse_materials_from_xml,
};
use dae_scene::read::geometry::{
    extract_indices_from_xml_mesh,
    extract_normals_from_xml_mesh,
    extract_uvs_from_xml_mesh,
    extract_vertices_from_xml_mesh,
};
use dae_scene::read::hierarchy::{
    has_bone_marker,
    parse_bone_hierarchy_from_nodes,
    parse_bone_hierarchy_from_visual_scenes,
    parse_node_hierarchy,
    parse_node_transform,
};
use dae_scene::read::skin::{parse_skin_data_to_mesh, resolve_influences};
use dae_scene::scalar::Scalar;
use dae_scene::xml::{
    find_all_children,
    find_child,
    get_attribute,
    get_element_text,
    parse_xml_document,
    XmlElement,
    XmlNode,
};

fn s(v: f32) -> Scalar {
    Scalar::from_bits(v.to_bits())
}

fn v3(x: f32, y: f32, z: f32) -> [Scalar; 3] {
    [s(x), s(y), s(z)]
}

fn v2(x: f32, y: f32) -> [Scalar; 2] {
    [s(x), s(y)]
}

fn annotate(e: &mut XmlElement) {
    for c in e.children.iter_mut() {
        match c {
            XmlNode::Element(x) => annotate(x),
            XmlNode::Text(t) => {
                t.scalars = t
                    .text
                    .split_whitespace()
                    .map(|w| w.parse::<f32>().ok().map(|v| Scalar::from_bits(v.to_bits())))
                    .collect();
            }
            _ => {}
        }
    }
}

fn parse(text: &str) -> XmlElement {
    let mut root = parse_xml_document(text.as_bytes()).unwrap();
    annotate(&mut root);
    root
}

const DOCUMENT: &str = r##"<?xml version="1.0" encoding="utf-8"?>
<!-- a small scene -->
<COLLADA xmlns="http://www.collada.org/2005/11/COLLADASchema" version="1.4.1">
  <asset><up_axis>Z_UP</up_axis></asset>
  <library_materials>
    <material id="red" name="Red"/>
    <material name="nameless"/>
    <material id="blue"/>
  </library_materials>
  <library_geometries>
    <geometry id="geom0" name="Quad">
      <mesh>
        <source id="geom0-positions">
          <float_array id="geom0-positions-array" count="12">0 0 0 1 0 0 0 1 0 1 1 0</float_array>
        </source>
        <source id="geom0-normals">
          <float_array count="12">0 0 1 0 0 1 0 0 1 0 0 1</float_array>
        </source>
        <source id="geom0-uv">
          <float_array count="8">0 0 1 0 0 1 1 1</float_array>
        </source>
        <vertices id="geom0-vertices">
          <input semantic="POSITION" source="#geom0-positions"/>
        </vertices>
        <triangles count="2">
          <input semantic="VERTEX" source="#geom0-vertices" offset="0"/>
          <input semantic="NORMAL" source="#geom0-normals" offset="1"/>
          <input semantic="TEXCOORD" source="#geom0-uv" offset="2" set="0"/>
          <p>0 0 0 1 1 1 2 2 2 1 1 1 2 2 2 3 3 3</p>
        </triangles>
      </mesh>
    </geometry>
    <geometry id="no-mesh"/>
    <geometry id="geom1">
      <mesh>
        <source id="pos1"><float_array>0 0 0 1 0 0 0 1 0</float_array></source>
        <vertices><input semantic="POSITION" source="#pos1"/></vertices>
        <triangles><input semantic="VERTEX" offset="0"/><p>0 1 2 1 2 5</p></triangles>
      </mesh>
    </geometry>
  </library_geometries>
  <library_controllers>
    <controller id="ctrl0">
      <skin source="#geom0">
        <source id="ctrl0-joints"><Name_array count="2">Hip Knee</Name_array></source>
        <source id="ctrl0-weights"><float_array count="3">1 0.5 0</float_array></source>
        <vertex_weights count="4">
          <vcount>1 2 1 2</vcount>
          <v>0 0 0 1 1 1 1 0 0 2 1 1</v>
        </vertex_weights>
      </skin>
    </controller>
    <controller id="ctrl-unknown"><skin source="#nothing"/></controller>
  </library_controllers>
  <library_visual_scenes>
    <visual_scene id="Scene">
      <node id="Armature" name="Armature">
        <node id="Hip" name="Hip" sid="Hip" type="JOINT">
          <matrix>1 0 0 5 0 1 0 6 0 0 1 7 0 0 0 1</matrix>
          <node id="Knee" name="Knee" type="JOINT">
            <translate>0 -2 0</translate>
            <node id="Marker" sid="Marker"/>
          </node>
        </node>
        <node id="left_bone"/>
      </node>
      <node name="no id"><node id="hidden_joint"/></node>
    </visual_scene>
  </library_visual_scenes>
</COLLADA>"##;

#[test]
fn a_document_that_is_no_xml_is_refused() {
    match parse_xml_document(b"<a><b></a>") {
        Err(DaeError::MalformedXml { detail }) => assert!(!detail.is_empty()),
        other => panic!("{:?}", other),
    }
    assert!(matches!(parse_xml_document(b""), Err(DaeError::MalformedXml { .. })));
}

#[test]
fn the_reader_gives_names_attributes_and_children_in_document_order() {
    let root = parse_xml_document(b"<?xml version=\"1.0\"?><!-- c --><a z=\"1\" b=\"2\"><c/>text<d x=\"y\"><![CDATA[raw]]></d><c k=\"v\"/></a>").unwrap();
    assert_eq!(root.name, "a");
    assert_eq!(root.attributes, vec![("z".to_string(), "1".to_string()), ("b".to_string(), "2".to_string())]);
    assert_eq!(root.children.len(), 4);
    assert_eq!(get_attribute(&root, "b"), Some(&"2".to_string()));
    assert_eq!(get_attribute(&root, "missing"), None);
    assert_eq!(get_element_text(&root).unwrap().text, "text");
    assert!(get_element_text(&root).unwrap().scalars.is_empty());
    let d = find_child(&root, "d").unwrap();
    assert_eq!(d.children, vec![XmlNode::CData("raw".to_string())]);
    assert!(get_element_text(d).is_none());
    assert!(find_child(&root, "e").is_none());
    let cs = find_all_children(&root, "c");
    assert_eq!(cs.len(), 2);
    assert!(cs[0].attributes.is_empty());
    assert_eq!(get_attribute(cs[1], "k"), Some(&"v".to_string()));
    assert_eq!(find_child(&root, "c").unwrap(), cs[0]);
}

#[test]
fn geometry_is_extracted_from_a_mesh_element() {
    let root = parse(DOCUMENT);
    let lib = find_child(&root, "library_geometries").unwrap();
    let mesh = find_child(find_all_children(lib, "geometry")[0], "mesh").unwrap();
    assert_eq!(
        extract_vertices_from_xml_mesh(mesh),
        vec![v3(0.0, 0.0, 0.0), v3(1.0, 0.0, 0.0), v3(0.0, 1.0, 0.0), v3(1.0, 1.0, 0.0)]
    );
    assert_eq!(extract_normals_from_xml_mesh(mesh), vec![v3(0.0, 0.0, 1.0); 4]);
    assert_eq!(
        extract_uvs_from_xml_mesh(mesh),
        vec![v2(0.0, 0.0), v2(1.0, 0.0), v2(0.0, 1.0), v2(1.0, 1.0)]
    );
    assert_eq!(extract_indices_from_xml_mesh(mesh), vec![0, 1, 2, 1, 2, 3]);
}

#[test]
fn the_position_channel_is_picked_by_its_offset() {
    let mesh = parse(
        r##"<mesh><triangles><input semantic="NORMAL" offset="0"/><input semantic="VERTEX" offset="1"/>
        <p>9 0 9 1 9 2 9</p></triangles>
        <triangles><p>7 8 9</p></triangles>
        <triangles><input semantic="POSITION" offset="x"/><p>4 5</p></triangles>
        <triangles><input semantic="VERTEX" offset="0"/><p>1 2 -3</p></triangles>
        <triangles><input semantic="VERTEX" offset="5"/><p>1 2 3</p></triangles></mesh>"##,
    );
    assert_eq!(extract_indices_from_xml_mesh(&mesh), vec![0, 1, 2, 7, 8, 9, 4, 5]);
}

#[test]
fn attributes_fall_back_to_sources_with_telling_names() {
    let mesh = parse(
        r##"<mesh>
        <source id="a" name="meshNrm"><float_array>1 0 0 0 1 0 0 0</float_array>
          <technique_common><accessor stride="3"/></technique_common></source>
        <source id="b" name="someUVs"><float_array>0.5 0.25 1 1 2</float_array></source>
        </mesh>"##,
    );
    assert_eq!(extract_normals_from_xml_mesh(&mesh), vec![v3(1.0, 0.0, 0.0), v3(0.0, 1.0, 0.0)]);
    assert_eq!(extract_uvs_from_xml_mesh(&mesh), vec![v2(0.5, 0.25), v2(1.0, 1.0)]);
    assert!(extract_vertices_from_xml_mesh(&mesh).is_empty());
    assert!(extract_indices_from_xml_mesh(&mesh).is_empty());
}

#[test]
fn a_stand_in_needs_the_right_stride_and_readable_numbers() {
    let mesh = parse(
        r##"<mesh>
        <source name="Normal4"><float_array>1 0 0 0</float_array>
          <technique_common><accessor stride="4"/></technique_common></source>
        <source name="normal-bad"><float_array>1 0 zero</float_array></source>
        <source name="normals"><float_array>0 0 1</float_array>
          <technique_common><accessor stride="three"/></technique_common></source>
        <source name="TexCoord"><float_array>1 2</float_array>
          <technique_common><accessor stride="3"/></technique_common></source>
        </mesh>"##,
    );
    assert_eq!(extract_normals_from_xml_mesh(&mesh), vec![v3(0.0, 0.0, 1.0)]);
    assert!(extract_uvs_from_xml_mesh(&mesh).is_empty());
}

#[test]
fn numbers_that_cannot_be_read_leave_an_attribute_empty() {
    let mesh = parse(
        r##"<mesh><source id="p"><float_array>0 0 0 1 x 0</float_array></source>
        <vertices><input semantic="POSITION" source="#p"/></vertices>
        <triangles><input semantic="VERTEX"/><p>0 1 two</p></triangles></mesh>"##,
    );
    assert!(extract_vertices_from_xml_mesh(&mesh).is_empty());
    assert!(extract_indices_from_xml_mesh(&mesh).is_empty());
}

#[test]
fn materials_are_listed_by_id() {
    let root = parse(DOCUMENT);
    let materials = parse_materials_from_xml(find_child(&root, "library_materials").unwrap());
    assert_eq!(materials.len(), 2);
    assert_eq!(materials[0].name, "red");
    assert_eq!(materials[1].name, "blue");
    assert_eq!(materials[0].diffuse_color, [s(1.0); 4]);
    assert_eq!(materials[0].specular_color, [s(0.0), s(0.0), s(0.0), s(1.0)]);
    assert_eq!(materials[0].emission_color, [s(0.0), s(0.0), s(0.0), s(1.0)]);
    assert!(materials[0].texture_paths.is_empty());
}

#[test]
fn geometries_become_consistent_meshes() {
    let root = parse(DOCUMENT);
    let mut names = Vec::new();
    let meshes = parse_geometries_from_xml(find_child(&root, "library_geometries").unwrap(), &mut names);
    assert_eq!(
        names,
        vec![("geom0".to_string(), "Quad".to_string()), ("geom1".to_string(), "geom1".to_string())]
    );
    assert_eq!(meshes.len(), 2);
    assert_eq!(meshes[0].name, "Quad");
    assert_eq!(meshes[0].indices, vec![0, 1, 2, 1, 2, 3]);
    assert_eq!(meshes[0].vertices.len(), 4);
    assert_eq!(meshes[1].name, "geom1");
    assert_eq!(meshes[1].vertices, vec![v3(0.0, 0.0, 0.0), v3(1.0, 0.0, 0.0), v3(0.0, 1.0, 0.0)]);
    assert_eq!(meshes[1].indices, vec![0, 1, 2]);
    assert!(meshes[1].normals.is_empty());
    assert!(meshes[1].bone_influences.is_empty());
    assert_eq!(meshes[1].material_name, None);
}

#[test]
fn skins_are_applied_to_the_meshes_they_target() {
    let root = parse(DOCUMENT);
    let mut names = Vec::new();
    let mut meshes = parse_geometries_from_xml(find_child(&root, "library_geometries").unwrap(), &mut names);
    parse_controllers_and_apply_to_meshes(find_child(&root, "library_controllers").unwrap(), &mut meshes, &names);
    let quad = &meshes[0];
    // vcount 1 2 1 2; v: (0,0) | (0,1) (1,1) | (1,0) | (0,2) (1,1); weights 1 0.5 0
    assert_eq!(quad.bone_influences.len(), 2);
    assert_eq!(quad.bone_influences[0].bone_name, "Hip");
    let hip: Vec<(u32, f32)> = quad.bone_influences[0]
        .vertex_weights
        .iter()
        .map(|w| (w.vertex_index, f32::from_bits(w.weight.to_bits())))
        .collect();
    assert_eq!(hip, vec![(0, 1.0), (1, 0.5)]);
    assert_eq!(quad.bone_influences[1].bone_name, "Knee");
    let knee: Vec<(u32, f32)> = quad.bone_influences[1]
        .vertex_weights
        .iter()
        .map(|w| (w.vertex_index, f32::from_bits(w.weight.to_bits())))
        .collect();
    assert_eq!(knee, vec![(1, 0.5), (2, 1.0), (3, 0.5)]);
    assert!(meshes[1].bone_influences.is_empty());
}

fn skinned(skin: &str) -> DaeMesh {
    let element = parse(skin);
    let mut mesh = DaeMesh {
        name: "m".to_string(),
        vertices: vec![],
        normals: vec![],
        uvs: vec![],
        indices: vec![],
        material_name: None,
        bone_influences: vec![],
    };
    parse_skin_data_to_mesh(&element, &mut mesh);
    mesh
}

#[test]
fn one_vertex_with_two_bones_gives_two_influences() {
    let mesh = skinned(
        r##"<skin><source id="joints"><Name_array>A B</Name_array></source>
        <source id="weights"><float_array>0.5 0.5</float_array></source>
        <vertex_weights count="1"><vcount>2</vcount><v>0 0 1 1</v></vertex_weights></skin>"##,
    );
    assert_eq!(mesh.bone_influences.len(), 2);
    assert_eq!(mesh.bone_influences[0].bone_name, "A");
    assert_eq!(mesh.bone_influences[0].vertex_weights.len(), 1);
    assert_eq!(mesh.bone_influences[0].vertex_weights[0].vertex_index, 0);
    assert_eq!(mesh.bone_influences[0].vertex_weights[0].weight, s(0.5));
    assert_eq!(mesh.bone_influences[1].bone_name, "B");
    assert_eq!(mesh.bone_influences[1].vertex_weights.len(), 1);
    assert_eq!(mesh.bone_influences[1].vertex_weights[0].vertex_index, 0);
    assert_eq!(mesh.bone_influences[1].vertex_weights[0].weight, s(0.5));
}

#[test]
fn a_count_that_does_not_match_leaves_the_mesh_rigid() {
    let mesh = skinned(
        r##"<skin><source id="joints"><Name_array>A B</Name_array></source>
        <source id="weights"><float_array>0.5 0.5</float_array></source>
        <vertex_weights count="2"><vcount>2</vcount><v>0 0 1 1</v></vertex_weights></skin>"##,
    );
    assert!(mesh.bone_influences.is_empty());
}

#[test]
fn a_skin_without_joints_or_weights_leaves_the_mesh_rigid() {
    let mesh = skinned(
        r##"<skin><source id="names"><Name_array>A B</Name_array></source>
        <source id="weights"><float_array>0.5 0.5</float_array></source>
        <vertex_weights count="1"><vcount>2</vcount><v>0 0 1 1</v></vertex_weights></skin>"##,
    );
    assert!(mesh.bone_influences.is_empty());
    let mesh = skinned(
        r##"<skin><source id="Joints"><Name_array>A B</Name_array></source>
        <source id="Weights"><float_array>none</float_array></source>
        <vertex_weights count="1"><vcount>2</vcount><v>0 0 1 1</v></vertex_weights></skin>"##,
    );
    assert!(mesh.bone_influences.is_empty());
}

#[test]
fn pairs_out_of_range_and_weights_of_zero_count_for_nothing() {
    let mesh = skinned(
        r##"<skin><source id="skin-Joint"><Name_array>A B</Name_array></source>
        <source id="skin-Weight"><float_array>0.5 0 -1 bad 0.25</float_array></source>
        <vertex_weights count="3"><vcount>3 1 9</vcount><v>0 1 7 0 1 0 0 9 1 2 0 3 1</v></vertex_weights></skin>"##,
    );
    // weights: 0.5 0 -1 0.25; vertex 0: (0,1)->0 dropped, (7,0) no joint, (1,0)->B 0.5
    // vertex 1: (0,9) no weight; vertex 2: (1,2)->B -1, (0,3)->A 0.25, then the stream ends
    assert_eq!(mesh.bone_influences.len(), 2);
    assert_eq!(mesh.bone_influences[0].bone_name, "B");
    assert_eq!(mesh.bone_influences[0].vertex_weights.len(), 2);
    assert_eq!(mesh.bone_influences[0].vertex_weights[0].vertex_index, 0);
    assert_eq!(mesh.bone_influences[0].vertex_weights[0].weight, s(0.5));
    assert_eq!(mesh.bone_influences[0].vertex_weights[1].vertex_index, 2);
    assert_eq!(mesh.bone_influences[0].vertex_weights[1].weight, s(-1.0));
    assert_eq!(mesh.bone_influences[1].bone_name, "A");
    assert_eq!(mesh.bone_influences[1].vertex_weights.len(), 1);
    assert_eq!(mesh.bone_influences[1].vertex_weights[0].vertex_index, 2);
    assert_eq!(mesh.bone_influences[1].vertex_weights[0].weight, s(0.25));
}

#[test]
fn a_weight_below_zero_is_kept() {
    let mesh = skinned(
        r##"<skin><source id="skin-Joint"><Name_array>A</Name_array></source>
        <source id="skin-Weight"><float_array>-0.5</float_array></source>
        <vertex_weights count="1"><vcount>1</vcount><v>0 0</v></vertex_weights></skin>"##,
    );
    assert_eq!(mesh.bone_influences.len(), 1);
    assert_eq!(mesh.bone_influences[0].bone_name, "A");
    assert_eq!(mesh.bone_influences[0].vertex_weights.len(), 1);
    assert_eq!(mesh.bone_influences[0].vertex_weights[0].vertex_index, 0);
    assert_eq!(mesh.bone_influences[0].vertex_weights[0].weight, s(-0.5));
    let got = resolve_influences(&vec![1], &vec![0, 0], &vec!["A".to_string()], &vec![s(-0.5)]);
    assert_eq!(got.len(), 1);
    assert_eq!(got[0].vertex_weights[0].weight, s(-0.5));
}

#[test]
fn a_weight_of_zero_of_either_sign_or_above_one_is_told_apart() {
    let names = vec!["A".to_string(), "B".to_string(), "C".to_string()];
    let weights = vec![s(0.0), s(-0.0), s(1.5)];
    let got = resolve_influences(&vec![3], &vec![0, 0, 1, 1, 2, 2], &names, &weights);
    assert_eq!(got.len(), 1);
    assert_eq!(got[0].bone_name, "C");
    assert_eq!(got[0].vertex_weights[0].weight, s(1.5));
    assert!(s(0.0).zero_valued());
    assert!(s(-0.0).zero_valued());
    assert!(!s(-0.5).zero_valued());
    assert!(!s(f32::NAN).zero_valued());
}

#[test]
fn bones_are_listed_depth_first_with_their_parents() {
    let root = parse(DOCUMENT);
    let bones = parse_bone_hierarchy_from_visual_scenes(find_child(&root, "library_visual_scenes").unwrap());
    let listed: Vec<(&str, Option<usize>)> = bones.iter().map(|b| (b.name.as_str(), b.parent_index)).collect();
    assert_eq!(
        listed,
        vec![("Hip", None), ("Knee", Some(0)), ("Marker", Some(1)), ("left_bone", None), ("hidden_joint", None)]
    );
    // the matrix is given row by row and kept column by column
    assert_eq!(
        bones[0].transform,
        [
            [s(1.0), s(0.0), s(0.0), s(0.0)],
            [s(0.0), s(1.0), s(0.0), s(0.0)],
            [s(0.0), s(0.0), s(1.0), s(0.0)],
            [s(5.0), s(6.0), s(7.0), s(1.0)],
        ]
    );
    assert_eq!(
        bones[1].transform,
        [
            [s(1.0), s(0.0), s(0.0), s(0.0)],
            [s(0.0), s(1.0), s(0.0), s(0.0)],
            [s(0.0), s(0.0), s(1.0), s(0.0)],
            [s(0.0), s(-2.0), s(0.0), s(1.0)],
        ]
    );
    assert_eq!(bones[2].transform, dae_scene::model::identity());
    assert!(bones.iter().all(|b| b.inverse_bind_matrix.is_none()));
}

#[test]
fn a_joint_without_an_id_is_a_bone() {
    let node = parse(r##"<node name='Hip' type='JOINT'><node id='Knee' type='JOINT'/></node>"##);
    let mut bones = Vec::new();
    parse_node_hierarchy(&node, None, &mut bones);
    let listed: Vec<(&str, Option<usize>)> = bones.iter().map(|b| (b.name.as_str(), b.parent_index)).collect();
    assert_eq!(listed, vec![("Hip", None), ("Knee", Some(0))]);
}

#[test]
fn a_bone_is_named_by_its_name_then_its_sid_then_its_id() {
    let node = parse(
        r##"<node type="JOINT" id="i0" sid="s0" name="n0"><node id="i1" sid="s1"/><node id="i2"/><node/></node>"##,
    );
    let mut bones = Vec::new();
    parse_node_hierarchy(&node, None, &mut bones);
    let listed: Vec<(&str, Option<usize>)> = bones.iter().map(|b| (b.name.as_str(), b.parent_index)).collect();
    assert_eq!(listed, vec![("n0", None), ("s1", Some(0)), ("i2", Some(0)), ("", Some(0))]);
}

#[test]
fn a_node_that_is_no_bone_is_passed_through() {
    let node = parse(r##"<node name="Armature"><node sid="left_bone"/><node name="prop"/></node>"##);
    let mut bones = Vec::new();
    parse_node_hierarchy(&node, None, &mut bones);
    let listed: Vec<(&str, Option<usize>)> = bones.iter().map(|b| (b.name.as_str(), b.parent_index)).collect();
    assert_eq!(listed, vec![("left_bone", None)]);
}

#[test]
fn a_node_library_is_read_in_the_same_way() {
    let lib = parse(
        r##"<library_nodes><node id="root_JOINT"><node id="child" name="c"/></node><node id="prop"/><other id="bone"/></library_nodes>"##,
    );
    let bones = parse_bone_hierarchy_from_nodes(&lib);
    let listed: Vec<(&str, Option<usize>)> = bones.iter().map(|b| (b.name.as_str(), b.parent_index)).collect();
    assert_eq!(listed, vec![("root_JOINT", None), ("c", Some(0))]);
}

#[test]
fn markers_are_found_in_any_case() {
    assert!(has_bone_marker("LeftBONE"));
    assert!(has_bone_marker("my_Joint_01"));
    assert!(has_bone_marker("bone"));
    assert!(!has_bone_marker("bon e"));
    assert!(!has_bone_marker("Armature"));
    assert!(!has_bone_marker(""));
}

#[test]
fn a_short_matrix_or_translation_gives_the_identity() {
    let node = parse(r##"<node><matrix>1 0 0 5</matrix><translate>1 2</translate></node>"##);
    assert_eq!(parse_node_transform(&node), dae_scene::model::identity());
    let node = parse(r##"<node><matrix>1 0 0 x 0 1 0 6 0 0 1 7 0 0 0 1</matrix><translate>1 2 3 4</translate></node>"##);
    assert_eq!(
        parse_node_transform(&node),
        [
            [s(1.0), s(0.0), s(0.0), s(0.0)],
            [s(0.0), s(1.0), s(0.0), s(0.0)],
            [s(0.0), s(0.0), s(1.0), s(0.0)],
            [s(1.0), s(2.0), s(3.0), s(1.0)],
        ]
    );
}

#[test]
fn a_whole_document_is_read_into_a_scene() {
    let scene = parse_dae_document(&parse(DOCUMENT));
    assert_eq!(scene.up_axis, UpAxisConversion::ZUp);
    assert_eq!(scene.materials.len(), 2);
    assert_eq!(scene.meshes.len(), 2);
    assert_eq!(scene.meshes[0].bone_influences.len(), 2);
    assert_eq!(scene.bones.len(), 5);
}

#[test]
fn the_up_axis_is_read_from_the_asset() {
    assert_eq!(parse_dae_document(&parse("<COLLADA><asset><up_axis>X_UP</up_axis></asset></COLLADA>")).up_axis, UpAxisConversion::NoConversion);
    assert_eq!(parse_dae_document(&parse("<COLLADA><asset><up_axis>Y_UP</up_axis></asset></COLLADA>")).up_axis, UpAxisConversion::YUp);
    assert_eq!(parse_dae_document(&parse("<COLLADA><asset><up_axis>z_up</up_axis></asset></COLLADA>")).up_axis, UpAxisConversion::YUp);
    assert_eq!(parse_dae_document(&parse("<COLLADA/>")).up_axis, UpAxisConversion::YUp);
}

#[test]
fn bones_come_from_the_node_library_where_the_scenes_hold_none() {
    let scene = parse_dae_document(&parse(
        r##"<COLLADA><library_visual_scenes><visual_scene><node id="prop"/></visual_scene></library_visual_scenes>
        <library_nodes><node id="a_bone"/></library_nodes></COLLADA>"##,
    ));
    assert_eq!(scene.bones.len(), 1);
    assert_eq!(scene.bones[0].name, "a_bone");
    assert!(scene.meshes.is_empty());
    assert!(scene.materials.is_empty());
}
