//! The scene of a document: its up axis, materials, meshes with their skins,
//! and bones.

use vstd::prelude::*;
use crate::model::{Color, DaeMaterial, DaeMesh, DaeScene, UpAxisConversion};
use crate::normalize::{normalized, optimize_mesh_data, Geometry};
use crate::read::geometry::{
    extract_indices_from_xml_mesh,
    extract_normals_from_xml_mesh,
    extract_uvs_from_xml_mesh,
    extract_vertices_from_xml_mesh,
    mesh_indices,
    mesh_normals,
    mesh_positions,
    mesh_uvs,
};
use crate::read::hierarchy::{
    bone_models,
    library_bones,
    parents_precede,
    parse_bone_hierarchy_from_nodes,
    parse_bone_hierarchy_from_visual_scenes,
    scene_bones,
    BoneModel,
};
use crate::read::skin::{
    influence_models,
    parse_skin_data_to_mesh,
    skinned_influences,
    InfluenceModel,
};
use crate::scalar::{one_bits, zero_bits, Scalar};
use crate::text::{strip_leading, text_eq, without_leading};
use crate::xml::{
    all_owned,
    find_all_children,
    find_child,
    get_attribute,
    get_element_text,
    pair_texts,
    XmlElement,
};

verus! {

/// A mesh as plain values.
pub struct MeshModel {
    pub name: Seq<char>,
    pub geometry: Geometry,
    pub material_name: Option<Seq<char>>,
    pub bone_influences: Seq<InfluenceModel>,
}

/// The text of an optional string.
pub open spec fn optional_text(s: Option<String>) -> Option<Seq<char>> {
    match s {
        Some(t) => Some(t@),
        None => None,
    }
}

impl DaeMesh {
    /// The mesh as plain values.
    pub open spec fn model(self) -> MeshModel {
        MeshModel {
            name: self.name@,
            geometry: self.geometry(),
            material_name: optional_text(self.material_name),
            bone_influences: influence_models(self.bone_influences@),
        }
    }
}

/// A list of meshes as plain values.
pub open spec fn mesh_models(list: Seq<DaeMesh>) -> Seq<MeshModel> {
    list.map_values(|m: DaeMesh| m.model())
}

/// A material as plain values.
pub struct MaterialModel {
    pub name: Seq<char>,
    pub diffuse_color: Color,
    pub specular_color: Color,
    pub emission_color: Color,
    pub texture_paths: Seq<(Seq<char>, Seq<char>)>,
}

impl DaeMaterial {
    /// The material as plain values.
    pub open spec fn model(self) -> MaterialModel {
        MaterialModel {
            name: self.name@,
            diffuse_color: self.diffuse_color,
            specular_color: self.specular_color,
            emission_color: self.emission_color,
            texture_paths: pair_texts(self.texture_paths@),
        }
    }
}

/// A list of materials as plain values.
pub open spec fn material_models(list: Seq<DaeMaterial>) -> Seq<MaterialModel> {
    list.map_values(|m: DaeMaterial| m.model())
}

/// A scene as plain values.
pub struct SceneModel {
    pub meshes: Seq<MeshModel>,
    pub materials: Seq<MaterialModel>,
    pub bones: Seq<BoneModel>,
    pub up_axis: UpAxisConversion,
}

impl DaeScene {
    /// The scene as plain values.
    pub open spec fn model(self) -> SceneModel {
        SceneModel {
            meshes: mesh_models(self.meshes@),
            materials: material_models(self.materials@),
            bones: bone_models(self.bones@),
            up_axis: self.up_axis,
        }
    }
}

/// The material that stands for the `<material>` element with the id `id`:
/// white diffuse colour, black specular and emission, no textures.
pub open spec fn stand_in_material(id: Seq<char>) -> MaterialModel {
    let o = Scalar { bits: one_bits() };
    let n = Scalar { bits: zero_bits() };
    MaterialModel {
        name: id,
        diffuse_color: [o, o, o, o],
        specular_color: [n, n, n, o],
        emission_color: [n, n, n, o],
        texture_paths: Seq::empty(),
    }
}

/// The materials of those of `elements` that have an id.
pub open spec fn materials_of(elements: Seq<XmlElement>) -> Seq<MaterialModel>
    decreases elements.len(),
{
    if elements.len() == 0 {
        Seq::empty()
    } else {
        let before = materials_of(elements.drop_last());
        match elements.last().attribute("id"@) {
            Some(id) => before.push(stand_in_material(id@)),
            None => before,
        }
    }
}

/// The materials of a `<library_materials>` element.
pub fn parse_materials_from_xml(lib_materials: &XmlElement) -> (r: Vec<DaeMaterial>)
    ensures
        material_models(r@) == materials_of(lib_materials.children_named("material"@)),
{
    let elements = find_all_children(lib_materials, "material");
    let ghost all = all_owned(elements@);
    let mut out: Vec<DaeMaterial> = Vec::new();
    let n = elements.len();
    let mut i: usize = 0;
    proof {
        assert(all.take(0) =~= Seq::<XmlElement>::empty());
        assert(material_models(out@) =~= Seq::<MaterialModel>::empty());
    }
    while i < n
        invariant
            i <= n,
            n == elements@.len(),
            all == all_owned(elements@),
            material_models(out@) == materials_of(all.take(i as int)),
        decreases n - i,
    {
        proof {
            assert(all.take(i + 1).drop_last() =~= all.take(i as int));
            assert(all.take(i + 1).last() == *elements@[i as int]);
        }
        match get_attribute(elements[i], "id") {
            Some(id) => {
                let o = Scalar::one();
                let z = Scalar::zero();
                let material = DaeMaterial {
                    name: id.clone(),
                    diffuse_color: [o, o, o, o],
                    specular_color: [z, z, z, o],
                    emission_color: [z, z, z, o],
                    texture_paths: Vec::new(),
                };
                proof {
                    assert(material.model().texture_paths =~= Seq::empty());
                    assert(material.model() == stand_in_material(id@));
                    assert(material_models(out@.push(material)) =~= material_models(out@).push(
                        material.model(),
                    ));
                }
                out.push(material);
            },
            None => {},
        }
        i += 1;
    }
    proof {
        assert(all.take(n as int) =~= all);
    }
    out
}

/// The geometry of a `<mesh>` element as it stands in the document.
pub open spec fn raw_geometry(mesh: XmlElement) -> Geometry {
    Geometry {
        vertices: mesh_positions(mesh),
        normals: mesh_normals(mesh),
        uvs: mesh_uvs(mesh),
        indices: mesh_indices(mesh),
    }
}

/// The mesh that a `<geometry>` element with the id `id` and the `<mesh>`
/// child `mesh` yields: called by the name of the geometry, or by its id
/// where it has no name; its geometry in consistent form; no material, no
/// skin.
pub open spec fn geometry_mesh(geometry: XmlElement, id: Seq<char>, mesh: XmlElement) -> MeshModel {
    MeshModel {
        name: match geometry.attribute("name"@) {
            Some(n) => n@,
            None => id,
        },
        geometry: normalized(raw_geometry(mesh)),
        material_name: None,
        bone_influences: Seq::empty(),
    }
}

/// The meshes of those of `elements` that have an id and a `<mesh>` child.
pub open spec fn meshes_of(elements: Seq<XmlElement>) -> Seq<MeshModel>
    decreases elements.len(),
{
    if elements.len() == 0 {
        Seq::empty()
    } else {
        let before = meshes_of(elements.drop_last());
        let g = elements.last();
        match (g.attribute("id"@), g.child("mesh"@)) {
            (Some(id), Some(mesh)) => before.push(geometry_mesh(g, id@, mesh)),
            _ => before,
        }
    }
}

/// For each of `elements` that yields a mesh, its id with the name of the
/// mesh.
pub open spec fn names_of(elements: Seq<XmlElement>) -> Seq<(Seq<char>, Seq<char>)>
    decreases elements.len(),
{
    if elements.len() == 0 {
        Seq::empty()
    } else {
        let before = names_of(elements.drop_last());
        let g = elements.last();
        match (g.attribute("id"@), g.child("mesh"@)) {
            (Some(id), Some(mesh)) => before.push((id@, geometry_mesh(g, id@, mesh).name)),
            _ => before,
        }
    }
}

/// The meshes of a `<library_geometries>` element. Each geometry's id is
/// noted in `geometry_id_to_name_map` with the name of its mesh.
pub fn parse_geometries_from_xml(
    lib_geometries: &XmlElement,
    geometry_id_to_name_map: &mut Vec<(String, String)>,
) -> (r: Vec<DaeMesh>)
    ensures
        mesh_models(r@) == meshes_of(lib_geometries.children_named("geometry"@)),
        pair_texts(final(geometry_id_to_name_map)@) == pair_texts(old(geometry_id_to_name_map)@)
            + names_of(lib_geometries.children_named("geometry"@)),
{
    let elements = find_all_children(lib_geometries, "geometry");
    let ghost all = all_owned(elements@);
    let ghost known = pair_texts(geometry_id_to_name_map@);
    let mut out: Vec<DaeMesh> = Vec::new();
    let n = elements.len();
    let mut i: usize = 0;
    proof {
        assert(all.take(0) =~= Seq::<XmlElement>::empty());
        assert(mesh_models(out@) =~= Seq::<MeshModel>::empty());
        assert(known + Seq::<(Seq<char>, Seq<char>)>::empty() =~= known);
    }
    while i < n
        invariant
            i <= n,
            n == elements@.len(),
            all == all_owned(elements@),
            known == pair_texts(old(geometry_id_to_name_map)@),
            mesh_models(out@) == meshes_of(all.take(i as int)),
            pair_texts(geometry_id_to_name_map@) == known + names_of(all.take(i as int)),
        decreases n - i,
    {
        proof {
            assert(all.take(i + 1).drop_last() =~= all.take(i as int));
            assert(all.take(i + 1).last() == *elements@[i as int]);
        }
        let g = elements[i];
        match get_attribute(g, "id") {
            Some(id) => match find_child(g, "mesh") {
                Some(mesh_elem) => {
                    let name = match get_attribute(g, "name") {
                        Some(n) => n.clone(),
                        None => id.clone(),
                    };
                    let ghost pairs_before = pair_texts(geometry_id_to_name_map@);
                    geometry_id_to_name_map.push((id.clone(), name.clone()));
                    let mut mesh = DaeMesh {
                        name,
                        vertices: extract_vertices_from_xml_mesh(mesh_elem),
                        normals: extract_normals_from_xml_mesh(mesh_elem),
                        uvs: extract_uvs_from_xml_mesh(mesh_elem),
                        indices: extract_indices_from_xml_mesh(mesh_elem),
                        material_name: None,
                        bone_influences: Vec::new(),
                    };
                    optimize_mesh_data(&mut mesh);
                    proof {
                        assert(mesh.model().bone_influences =~= Seq::empty());
                        assert(mesh.model() == geometry_mesh(*g, id@, *mesh_elem));
                        assert(mesh_models(out@.push(mesh)) =~= mesh_models(out@).push(
                            mesh.model(),
                        ));
                        assert(pair_texts(geometry_id_to_name_map@) =~= pairs_before.push(
                            (id@, mesh.model().name),
                        ));
                        assert(known + names_of(all.take(i as int)).push((id@, mesh.model().name))
                            =~= (known + names_of(all.take(i as int))).push(
                            (id@, mesh.model().name),
                        ));
                    }
                    out.push(mesh);
                },
                None => {},
            },
            None => {},
        }
        i += 1;
    }
    proof {
        assert(all.take(n as int) =~= all);
    }
    out
}

/// The value noted last for `key`.
pub open spec fn last_value(pairs: Seq<(Seq<char>, Seq<char>)>, key: Seq<char>) -> Option<
    Seq<char>,
>
    decreases pairs.len(),
{
    if pairs.len() == 0 {
        None
    } else if pairs.last().0 == key {
        Some(pairs.last().1)
    } else {
        last_value(pairs.drop_last(), key)
    }
}

/// The position of the first mesh called `name`.
pub open spec fn mesh_position(meshes: Seq<MeshModel>, name: Seq<char>) -> Option<int>
    decreases meshes.len(),
{
    if meshes.len() == 0 {
        None
    } else {
        match mesh_position(meshes.drop_last(), name) {
            Some(i) => Some(i),
            None => if meshes.last().name == name {
                Some(meshes.len() - 1)
            } else {
                None
            },
        }
    }
}

/// The position of a mesh by name is that of the first mesh so called.
pub proof fn lemma_mesh_position(meshes: Seq<MeshModel>, name: Seq<char>)
    ensures
        match mesh_position(meshes, name) {
            Some(i) => 0 <= i < meshes.len() && meshes[i].name == name && forall|k: int|
                0 <= k < i ==> meshes[k].name != name,
            None => forall|k: int| 0 <= k < meshes.len() ==> meshes[k].name != name,
        },
    decreases meshes.len(),
{
    if meshes.len() > 0 {
        lemma_mesh_position(meshes.drop_last(), name);
        assert forall|k: int| 0 <= k < meshes.len() - 1 implies meshes.drop_last()[k]
            == meshes[k] by {}
    }
}

/// The mesh that a controller targets, by position, with the skin to read
/// for it: the controller has an id and a `<skin>` whose source, without its
/// leading `#`, is the id of a geometry noted in `names`; the target is the
/// first mesh called by the name noted for it.
pub open spec fn controller_target(
    controller: XmlElement,
    meshes: Seq<MeshModel>,
    names: Seq<(Seq<char>, Seq<char>)>,
) -> Option<(int, XmlElement)> {
    match (controller.attribute("id"@), controller.child("skin"@)) {
        (Some(_), Some(skin)) => match skin.attribute("source"@) {
            Some(source) => match last_value(names, without_leading(source@, '#')) {
                Some(mesh_name) => match mesh_position(meshes, mesh_name) {
                    Some(i) => Some((i, skin)),
                    None => None,
                },
                None => None,
            },
            None => None,
        },
        _ => None,
    }
}

/// The meshes after one controller is applied.
pub open spec fn with_controller(
    meshes: Seq<MeshModel>,
    controller: XmlElement,
    names: Seq<(Seq<char>, Seq<char>)>,
) -> Seq<MeshModel> {
    match controller_target(controller, meshes, names) {
        Some((i, skin)) => meshes.update(
            i,
            MeshModel {
                bone_influences: skinned_influences(skin, meshes[i].bone_influences),
                ..meshes[i]
            },
        ),
        None => meshes,
    }
}

/// The meshes after `controllers` are applied in order.
pub open spec fn with_controllers(
    meshes: Seq<MeshModel>,
    controllers: Seq<XmlElement>,
    names: Seq<(Seq<char>, Seq<char>)>,
) -> Seq<MeshModel>
    decreases controllers.len(),
{
    if controllers.len() == 0 {
        meshes
    } else {
        with_controller(
            with_controllers(meshes, controllers.drop_last(), names),
            controllers.last(),
            names,
        )
    }
}

fn find_last_value<'a>(pairs: &'a Vec<(String, String)>, key: &str) -> (r: Option<&'a String>)
    ensures
        match r {
            Some(v) => last_value(pair_texts(pairs@), key@) == Some(v@),
            None => last_value(pair_texts(pairs@), key@) is None,
        },
{
    let ghost all = pair_texts(pairs@);
    let mut i: usize = pairs.len();
    proof {
        assert(all.take(i as int) =~= all);
    }
    while i > 0
        invariant
            i <= pairs@.len(),
            all == pair_texts(pairs@),
            last_value(all, key@) == last_value(all.take(i as int), key@),
        decreases i,
    {
        proof {
            assert(all.take(i as int).drop_last() =~= all.take(i - 1));
            assert(all.take(i as int).last() == (pairs@[i - 1].0@, pairs@[i - 1].1@));
        }
        if text_eq(pairs[i - 1].0.as_str(), key) {
            return Some(&pairs[i - 1].1);
        }
        i -= 1;
    }
    None
}

fn find_mesh(meshes: &Vec<DaeMesh>, name: &str) -> (r: Option<usize>)
    ensures
        match r {
            Some(i) => mesh_position(mesh_models(meshes@), name@) == Some(i as int) && i
                < meshes@.len(),
            None => mesh_position(mesh_models(meshes@), name@) is None,
        },
{
    let ghost all = mesh_models(meshes@);
    proof {
        lemma_mesh_position(all, name@);
    }
    let n = meshes.len();
    let mut i: usize = 0;
    while i < n
        invariant
            i <= n,
            n == meshes@.len(),
            all == mesh_models(meshes@),
            forall|k: int| 0 <= k < i ==> all[k].name != name@,
        decreases n - i,
    {
        if text_eq(meshes[i].name.as_str(), name) {
            proof {
                lemma_mesh_position(all, name@);
                assert(all[i as int].name == name@);
            }
            return Some(i);
        }
        i += 1;
    }
    proof {
        lemma_mesh_position(all, name@);
    }
    None
}

fn apply_controller(
    controller: &XmlElement,
    meshes: &mut Vec<DaeMesh>,
    geometry_id_to_name_map: &Vec<(String, String)>,
)
    ensures
        mesh_models(final(meshes)@) == with_controller(
            mesh_models(old(meshes)@),
            *controller,
            pair_texts(geometry_id_to_name_map@),
        ),
{
    let ghost before = mesh_models(meshes@);
    if get_attribute(controller, "id").is_none() {
        return ;
    }
    match find_child(controller, "skin") {
        Some(skin) => match get_attribute(skin, "source") {
            Some(source) => {
                let geometry_id = strip_leading(source.as_str(), '#');
                match find_last_value(geometry_id_to_name_map, geometry_id.as_str()) {
                    Some(mesh_name) => match find_mesh(meshes, mesh_name.as_str()) {
                        Some(i) => {
                            let ghost prev = meshes@;
                            parse_skin_data_to_mesh(skin, &mut meshes[i]);
                            proof {
                                assert forall|k: int| 0 <= k < prev.len() && k != i implies meshes@[k]
                                    == prev[k] by {}
                                assert(mesh_models(meshes@) =~= with_controller(
                                    before,
                                    *controller,
                                    pair_texts(geometry_id_to_name_map@),
                                ));
                            }
                        },
                        None => {},
                    },
                    None => {},
                }
            },
            None => {},
        },
        None => {},
    }
}

/// Reads the skins of a `<library_controllers>` element into the meshes that
/// they target.
pub fn parse_controllers_and_apply_to_meshes(
    lib_controllers: &XmlElement,
    meshes: &mut Vec<DaeMesh>,
    geometry_id_to_name_map: &Vec<(String, String)>,
)
    ensures
        mesh_models(final(meshes)@) == with_controllers(
            mesh_models(old(meshes)@),
            lib_controllers.children_named("controller"@),
            pair_texts(geometry_id_to_name_map@),
        ),
{
    let controllers = find_all_children(lib_controllers, "controller");
    let ghost all = all_owned(controllers@);
    let n = controllers.len();
    let mut i: usize = 0;
    proof {
        assert(all.take(0) =~= Seq::<XmlElement>::empty());
    }
    while i < n
        invariant
            i <= n,
            n == controllers@.len(),
            all == all_owned(controllers@),
            mesh_models(meshes@) == with_controllers(
                mesh_models(old(meshes)@),
                all.take(i as int),
                pair_texts(geometry_id_to_name_map@),
            ),
        decreases n - i,
    {
        proof {
            assert(all.take(i + 1).drop_last() =~= all.take(i as int));
            assert(all.take(i + 1).last() == *controllers@[i as int]);
        }
        apply_controller(controllers[i], meshes, geometry_id_to_name_map);
        i += 1;
    }
    proof {
        assert(all.take(n as int) =~= all);
    }
}

/// The up axis that a document declares: `Z_UP` and `Y_UP` by name, `X_UP`
/// as no conversion; Y-up where it declares nothing or something else.
pub open spec fn document_up_axis(root: XmlElement) -> UpAxisConversion {
    match root.child("asset"@) {
        Some(asset) => match asset.child("up_axis"@) {
            Some(up) => match up.text() {
                Some(t) => if t.text@ == "X_UP"@ {
                    UpAxisConversion::NoConversion
                } else if t.text@ == "Z_UP"@ {
                    UpAxisConversion::ZUp
                } else {
                    UpAxisConversion::YUp
                },
                None => UpAxisConversion::YUp,
            },
            None => UpAxisConversion::YUp,
        },
        None => UpAxisConversion::YUp,
    }
}

/// The materials of a document.
pub open spec fn document_materials(root: XmlElement) -> Seq<MaterialModel> {
    match root.child("library_materials"@) {
        Some(lib) => materials_of(lib.children_named("material"@)),
        None => Seq::empty(),
    }
}

/// The ids of the geometries of a document, each with the name of its mesh.
pub open spec fn document_names(root: XmlElement) -> Seq<(Seq<char>, Seq<char>)> {
    match root.child("library_geometries"@) {
        Some(lib) => names_of(lib.children_named("geometry"@)),
        None => Seq::empty(),
    }
}

/// The meshes of a document, skins applied.
pub open spec fn document_meshes(root: XmlElement) -> Seq<MeshModel> {
    let plain = match root.child("library_geometries"@) {
        Some(lib) => meshes_of(lib.children_named("geometry"@)),
        None => Seq::empty(),
    };
    match root.child("library_controllers"@) {
        Some(lib) => with_controllers(
            plain,
            lib.children_named("controller"@),
            document_names(root),
        ),
        None => plain,
    }
}

/// The bones of a document: those of its visual scenes, or where these hold
/// none, those of its node library.
pub open spec fn document_bones(root: XmlElement) -> Seq<BoneModel> {
    let from_scenes = match root.child("library_visual_scenes"@) {
        Some(lib) => scene_bones(lib),
        None => Seq::empty(),
    };
    if from_scenes.len() == 0 {
        match root.child("library_nodes"@) {
            Some(lib) => library_bones(lib),
            None => from_scenes,
        }
    } else {
        from_scenes
    }
}

/// The scene of a document.
pub open spec fn document_scene(root: XmlElement) -> SceneModel {
    SceneModel {
        meshes: document_meshes(root),
        materials: document_materials(root),
        bones: document_bones(root),
        up_axis: document_up_axis(root),
    }
}

fn read_up_axis(root: &XmlElement) -> (r: UpAxisConversion)
    ensures
        r == document_up_axis(*root),
{
    match find_child(root, "asset") {
        Some(asset) => match find_child(asset, "up_axis") {
            Some(up) => match get_element_text(up) {
                Some(t) => if text_eq(t.text.as_str(), "X_UP") {
                    UpAxisConversion::NoConversion
                } else if text_eq(t.text.as_str(), "Z_UP") {
                    UpAxisConversion::ZUp
                } else {
                    UpAxisConversion::YUp
                },
                None => UpAxisConversion::YUp,
            },
            None => UpAxisConversion::YUp,
        },
        None => UpAxisConversion::YUp,
    }
}

/// Reads the scene out of the root element of a document.
pub fn parse_dae_document(root: &XmlElement) -> (r: DaeScene)
    ensures
        r.model() == document_scene(*root),
        parents_precede(r.model().bones),
{
    let up_axis = read_up_axis(root);
    let materials = match find_child(root, "library_materials") {
        Some(lib) => parse_materials_from_xml(lib),
        None => Vec::new(),
    };
    let mut names: Vec<(String, String)> = Vec::new();
    proof {
        assert(pair_texts(names@) =~= Seq::<(Seq<char>, Seq<char>)>::empty());
    }
    let mut meshes = match find_child(root, "library_geometries") {
        Some(lib) => {
            let found = parse_geometries_from_xml(lib, &mut names);
            proof {
                assert(Seq::<(Seq<char>, Seq<char>)>::empty() + names_of(
                    lib.children_named("geometry"@),
                ) =~= names_of(lib.children_named("geometry"@)));
            }
            found
        },
        None => Vec::new(),
    };
    proof {
        assert(pair_texts(names@) =~= document_names(*root));
        assert(mesh_models(meshes@) =~= match root.child("library_geometries"@) {
            Some(lib) => meshes_of(lib.children_named("geometry"@)),
            None => Seq::empty(),
        });
    }
    match find_child(root, "library_controllers") {
        Some(lib) => {
            parse_controllers_and_apply_to_meshes(lib, &mut meshes, &names);
        },
        None => {},
    }
    let mut bones = match find_child(root, "library_visual_scenes") {
        Some(lib) => parse_bone_hierarchy_from_visual_scenes(lib),
        None => Vec::new(),
    };
    if bones.len() == 0 {
        match find_child(root, "library_nodes") {
            Some(lib) => {
                bones = parse_bone_hierarchy_from_nodes(lib);
            },
            None => {},
        }
    }
    let scene = DaeScene { meshes, materials, bones, up_axis };
    proof {
        assert(scene.model().meshes =~= document_meshes(*root));
        assert(scene.model().materials =~= document_materials(*root));
        assert(scene.model().bones =~= document_bones(*root));
    }
    scene
}

} // verus!
