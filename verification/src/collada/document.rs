//! The bones as nodes, and the COLLADA document as a whole.

use vstd::prelude::*;
use crate::collada::controller::{
    build_controller_element_json,
    controller_element,
    controller_fault,
    json_bone_names,
    mat4_to_row_major,
    matrix_rows,
    ControllerWeights,
};
use crate::collada::geometry::{build_geometry_element_json, geometry_element};
use crate::collada::ids::{
    controller_id,
    geometry_id,
    make_numbered_id,
    reference,
    sanitize_id,
    sanitized,
};
use crate::collada::scene::{DaeExportConfig, JsonBone, JsonMeshObject, JsonScene};
use crate::collada::sources::{asset_element, build_asset, matrix_list};
use crate::error::DaeError;
use crate::model::UpAxisConversion;
use crate::scalar::Scalar;
use crate::text::{decimal_digits, push_decimal};
use crate::xml::{
    element_model,
    empty_element,
    with_attribute,
    with_child,
    with_numbers,
    with_text,
    ElementModel,
    XmlElement,
};

verus! {

/// The `<node>` element of a bone up to its matrix: a joint with its name
/// as name and sid, its name as an id for id.
pub open spec fn bone_head(bone: JsonBone) -> ElementModel {
    with_child(
        with_attribute(
            with_attribute(
                with_attribute(
                    with_attribute(empty_element("node"@), "id"@, sanitized(bone.name@)),
                    "name"@,
                    bone.name@,
                ),
                "sid"@,
                bone.name@,
            ),
            "type"@,
            "JOINT"@,
        ),
        with_numbers(empty_element("matrix"@), matrix_rows(bone.transform)),
    )
}

/// The `<node>` element of the bone at position `i` with the bones below
/// it, as far as `depth` levels down.
pub open spec fn bone_element(bones: Seq<JsonBone>, i: int, depth: nat) -> ElementModel
    decreases depth, bones.len() + 1,
{
    with_bone_children(bone_head(bones[i]), bones, i, bones.len(), depth)
}

/// An element with the nodes of those of the first `upto` bones whose
/// parent is the bone at position `parent`.
pub open spec fn with_bone_children(
    e: ElementModel,
    bones: Seq<JsonBone>,
    parent: int,
    upto: nat,
    depth: nat,
) -> ElementModel
    decreases depth, upto,
{
    if upto == 0 || depth == 0 {
        e
    } else {
        let before = with_bone_children(e, bones, parent, (upto - 1) as nat, depth);
        if upto <= bones.len() && bones[upto - 1].parent_index == Some(parent as usize) {
            with_child(before, bone_element(bones, upto - 1, (depth - 1) as nat))
        } else {
            before
        }
    }
}

/// The `<node>` element of the bone at position `bone_index` with the bones
/// below it, as far as `depth` levels down.
pub fn build_skeleton_node_recursive_json(bones: &Vec<JsonBone>, bone_index: usize, depth: usize) -> (r:
    XmlElement)
    requires
        bone_index < bones@.len(),
    ensures
        element_model(r) == bone_element(bones@, bone_index as int, depth as nat),
    decreases depth,
{
    let bone = &bones[bone_index];
    let mut node = XmlElement::new("node");
    node.set_attribute("id", sanitize_id(bone.name.as_str()));
    node.set_attribute("name", bone.name.clone());
    node.set_attribute("sid", bone.name.clone());
    node.set_attribute("type", "JOINT".to_owned());
    let mut matrix = XmlElement::new("matrix");
    let row_major = mat4_to_row_major(&bone.transform);
    let numbers = matrix_list(&row_major);
    proof {
        assert(numbers@ =~= matrix_rows(bone.transform));
    }
    matrix.add_numbers(&numbers);
    node.add_child(matrix);
    if depth == 0 {
        return node;
    }
    let n = bones.len();
    let mut i: usize = 0;
    while i < n
        invariant
            i <= n,
            n == bones@.len(),
            depth > 0,
            bone_index < n,
            element_model(node) == with_bone_children(
                bone_head(bones@[bone_index as int]),
                bones@,
                bone_index as int,
                i as nat,
                depth as nat,
            ),
        decreases n - i,
    {
        match bones[i].parent_index {
            Some(p) => {
                if p == bone_index {
                    node.add_child(build_skeleton_node_recursive_json(bones, i, depth - 1));
                }
            },
            None => {},
        }
        i += 1;
    }
    node
}

/// What only arithmetic on numbers can give for a document: the inverse
/// bind matrix of every bone, row by row, and for each mesh the table and
/// the places of its weights.
#[derive(Clone, Debug, PartialEq, Eq)]
pub struct DaeArithmetic {
    pub inverse_bind_matrices: Vec<[Scalar; 16]>,
    pub skins: Vec<ControllerWeights>,
}

/// Whether a mesh gets a controller: it has influences, and there are
/// bones.
pub open spec fn has_controller(m: JsonMeshObject, scene: JsonScene) -> bool {
    m.bone_influences@.len() > 0 && scene.bones@.len() > 0
}

/// The position of the first bone without parent.
pub open spec fn first_root(bones: Seq<JsonBone>) -> Option<int>
    decreases bones.len(),
{
    if bones.len() == 0 {
        None
    } else {
        match first_root(bones.drop_last()) {
            Some(i) => Some(i),
            None => if bones.last().parent_index is None {
                Some(bones.len() - 1)
            } else {
                None
            },
        }
    }
}

/// The id of the node of the mesh at position `index`.
pub open spec fn mesh_node_id(index: nat) -> Seq<char> {
    "mesh_"@ + decimal_digits(index)
}

/// The `<node>` element that shows the mesh at position `index`: through
/// its controller, with the first root bone as skeleton, or else as plain
/// geometry.
pub open spec fn mesh_node(scene: JsonScene, index: int) -> ElementModel {
    let m = scene.meshes@[index];
    let head = with_attribute(
        with_attribute(empty_element("node"@), "id"@, mesh_node_id(index as nat)),
        "name"@,
        m.name@,
    );
    if has_controller(m, scene) {
        let instance = with_attribute(
            empty_element("instance_controller"@),
            "url"@,
            "#"@ + controller_id(index as nat, m.name@),
        );
        with_child(
            head,
            match first_root(scene.bones@) {
                Some(root) => with_child(
                    instance,
                    with_text(
                        empty_element("skeleton"@),
                        "#"@ + sanitized(scene.bones@[root].name@),
                    ),
                ),
                None => instance,
            },
        )
    } else {
        with_child(
            head,
            with_attribute(
                empty_element("instance_geometry"@),
                "url"@,
                "#"@ + geometry_id(index as nat, m.name@),
            ),
        )
    }
}

fn find_first_root(bones: &Vec<JsonBone>) -> (r: Option<usize>)
    ensures
        match r {
            Some(i) => first_root(bones@) == Some(i as int) && i < bones@.len(),
            None => first_root(bones@) is None,
        },
{
    let n = bones.len();
    let mut i: usize = 0;
    proof {
        assert(bones@.take(0) =~= Seq::<JsonBone>::empty());
    }
    while i < n
        invariant
            i <= n,
            n == bones@.len(),
            first_root(bones@.take(i as int)) is None,
        decreases n - i,
    {
        proof {
            assert(bones@.take(i + 1).drop_last() =~= bones@.take(i as int));
            assert(bones@.take(i + 1).last() == bones@[i as int]);
        }
        if bones[i].parent_index.is_none() {
            proof {
                lemma_first_root_kept(bones@, i + 1, i as int);
            }
            return Some(i);
        }
        i += 1;
    }
    proof {
        assert(bones@.take(n as int) =~= bones@);
    }
    None
}

proof fn lemma_first_root_kept(bones: Seq<JsonBone>, k: int, at: int)
    requires
        0 <= k <= bones.len(),
        first_root(bones.take(k)) == Some(at),
    ensures
        first_root(bones) == Some(at),
    decreases bones.len() - k,
{
    if k == bones.len() {
        assert(bones.take(k) =~= bones);
    } else {
        assert(bones.take(k + 1).drop_last() =~= bones.take(k));
        lemma_first_root_kept(bones, k + 1, at);
    }
}

fn build_mesh_node(scene: &JsonScene, index: usize) -> (r: XmlElement)
    requires
        index < scene.meshes@.len(),
    ensures
        element_model(r) == mesh_node(*scene, index as int),
{
    let mesh_object = &scene.meshes[index];
    let mut node = XmlElement::new("node");
    let mut id = "mesh_".to_owned();
    push_decimal(&mut id, index as u64);
    node.set_attribute("id", id);
    node.set_attribute("name", mesh_object.name.clone());
    if mesh_object.bone_influences.len() > 0 && scene.bones.len() > 0 {
        let ctrl_id = make_numbered_id("ctrl_", index, mesh_object.name.as_str());
        let mut instance = XmlElement::new("instance_controller");
        instance.set_attribute("url", reference(ctrl_id.as_str()));
        match find_first_root(&scene.bones) {
            Some(root) => {
                let root_id = sanitize_id(scene.bones[root].name.as_str());
                let mut skeleton = XmlElement::new("skeleton");
                skeleton.add_text(reference(root_id.as_str()));
                instance.add_child(skeleton);
            },
            None => {},
        }
        node.add_child(instance);
    } else {
        let geom_id = make_numbered_id("geom_", index, mesh_object.name.as_str());
        let mut instance = XmlElement::new("instance_geometry");
        instance.set_attribute("url", reference(geom_id.as_str()));
        node.add_child(instance);
    }
    node
}

/// The `<library_geometries>` element with the geometries of the first
/// `upto` meshes.
pub open spec fn geometries_element(scene: JsonScene, upto: nat) -> ElementModel
    decreases upto,
{
    if upto == 0 {
        empty_element("library_geometries"@)
    } else {
        with_child(
            geometries_element(scene, (upto - 1) as nat),
            geometry_element(scene.meshes@[upto - 1], (upto - 1) as nat),
        )
    }
}

/// The `<library_controllers>` element with the controllers of those of the
/// first `upto` meshes that get one.
pub open spec fn controllers_element(scene: JsonScene, arithmetic: DaeArithmetic, upto: nat) -> ElementModel
    decreases upto,
{
    if upto == 0 {
        empty_element("library_controllers"@)
    } else {
        let before = controllers_element(scene, arithmetic, (upto - 1) as nat);
        if has_controller(scene.meshes@[upto - 1], scene) {
            with_child(
                before,
                controller_element(
                    scene.meshes@[upto - 1],
                    (upto - 1) as nat,
                    json_bone_names(scene.bones@),
                    arithmetic.inverse_bind_matrices@,
                    arithmetic.skins@[upto - 1],
                ),
            )
        } else {
            before
        }
    }
}

/// The first fault among the controllers of the first `upto` meshes.
pub open spec fn controllers_fault(scene: JsonScene, arithmetic: DaeArithmetic, upto: nat) -> Option<
    DaeError,
>
    decreases upto,
{
    if upto == 0 {
        None
    } else {
        match controllers_fault(scene, arithmetic, (upto - 1) as nat) {
            Some(e) => Some(e),
            None => if has_controller(scene.meshes@[upto - 1], scene) {
                controller_fault(
                    scene.meshes@[upto - 1],
                    (upto - 1) as usize,
                    json_bone_names(scene.bones@),
                    arithmetic.skins@[upto - 1],
                )
            } else {
                None
            },
        }
    }
}

/// A `<visual_scene>` with the nodes of those of the first `upto` bones
/// that have no parent, each with the bones below it.
pub open spec fn scene_with_bones(scene: JsonScene, upto: nat) -> ElementModel
    decreases upto,
{
    if upto == 0 {
        with_attribute(
            with_attribute(empty_element("visual_scene"@), "id"@, "Scene"@),
            "name"@,
            "Scene"@,
        )
    } else {
        let before = scene_with_bones(scene, (upto - 1) as nat);
        if scene.bones@[upto - 1].parent_index is None {
            with_child(before, bone_element(scene.bones@, upto - 1, scene.bones@.len()))
        } else {
            before
        }
    }
}

/// A `<visual_scene>` with the bones and the nodes of the first `upto`
/// meshes.
pub open spec fn scene_with_meshes(scene: JsonScene, upto: nat) -> ElementModel
    decreases upto,
{
    if upto == 0 {
        scene_with_bones(scene, scene.bones@.len())
    } else {
        with_child(scene_with_meshes(scene, (upto - 1) as nat), mesh_node(scene, upto - 1))
    }
}

/// The root of a COLLADA document for a scene.
pub open spec fn collada_element(scene: JsonScene, axis: UpAxisConversion, arithmetic: DaeArithmetic) -> ElementModel {
    with_child(
        with_child(
            with_child(
                with_child(
                    with_child(
                        with_attribute(
                            with_attribute(
                                empty_element("COLLADA"@),
                                "xmlns"@,
                                "http://www.collada.org/2005/11/COLLADASchema"@,
                            ),
                            "version"@,
                            "1.4.1"@,
                        ),
                        asset_element(axis),
                    ),
                    geometries_element(scene, scene.meshes@.len()),
                ),
                controllers_element(scene, arithmetic, scene.meshes@.len()),
            ),
            with_child(
                empty_element("library_visual_scenes"@),
                scene_with_meshes(scene, scene.meshes@.len()),
            ),
        ),
        with_child(
            empty_element("scene"@),
            with_attribute(empty_element("instance_visual_scene"@), "url"@, "#Scene"@),
        ),
    )
}

/// What keeps a document from being built, if anything: tables of weights
/// that are not one per mesh, or places that do not fit a mesh.
pub open spec fn collada_fault(scene: JsonScene, arithmetic: DaeArithmetic) -> Option<DaeError> {
    if arithmetic.skins@.len() != scene.meshes@.len() {
        Some(
            DaeError::SkinsMismatch {
                objects: scene.meshes@.len() as usize,
                skins: arithmetic.skins@.len() as usize,
            },
        )
    } else {
        controllers_fault(scene, arithmetic, scene.meshes@.len())
    }
}

/// Builds the root of a COLLADA document for a scene: the asset, the
/// geometries, the controllers of the skinned meshes, the bones and meshes
/// as nodes of one visual scene, and the scene itself.
pub fn build_collada(scene: &JsonScene, config: &DaeExportConfig, arithmetic: &DaeArithmetic) -> (r:
    Result<XmlElement, DaeError>)
    ensures
        match r {
            Ok(e) => collada_fault(*scene, *arithmetic) is None && element_model(e)
                == collada_element(*scene, config.up_axis, *arithmetic),
            Err(e) => collada_fault(*scene, *arithmetic) == Some(e),
        },
{
    let n = scene.meshes.len();
    if arithmetic.skins.len() != n {
        return Err(DaeError::SkinsMismatch { objects: n, skins: arithmetic.skins.len() });
    }
    let mut collada = XmlElement::new("COLLADA");
    collada.set_attribute("xmlns", "http://www.collada.org/2005/11/COLLADASchema".to_owned());
    collada.set_attribute("version", "1.4.1".to_owned());
    collada.add_child(build_asset(config));
    let mut library_geometries = XmlElement::new("library_geometries");
    let mut i: usize = 0;
    while i < n
        invariant
            i <= n,
            n == scene.meshes@.len(),
            element_model(library_geometries) == geometries_element(*scene, i as nat),
        decreases n - i,
    {
        library_geometries.add_child(build_geometry_element_json(&scene.meshes[i], i));
        i += 1;
    }
    collada.add_child(library_geometries);
    let mut library_controllers = XmlElement::new("library_controllers");
    let mut i: usize = 0;
    while i < n
        invariant
            i <= n,
            n == scene.meshes@.len(),
            n == arithmetic.skins@.len(),
            controllers_fault(*scene, *arithmetic, i as nat) is None,
            element_model(library_controllers) == controllers_element(
                *scene,
                *arithmetic,
                i as nat,
            ),
        decreases n - i,
    {
        if scene.meshes[i].bone_influences.len() > 0 && scene.bones.len() > 0 {
            match build_controller_element_json(
                &scene.meshes[i],
                i,
                &scene.bones,
                arithmetic.inverse_bind_matrices.as_slice(),
                &arithmetic.skins[i],
            ) {
                Ok(controller) => {
                    library_controllers.add_child(controller);
                },
                Err(e) => {
                    proof {
                        lemma_controllers_fault_kept(*scene, *arithmetic, (i + 1) as nat, n as nat);
                    }
                    return Err(e);
                },
            }
        }
        i += 1;
    }
    collada.add_child(library_controllers);
    let mut visual_scene = XmlElement::new("visual_scene");
    visual_scene.set_attribute("id", "Scene".to_owned());
    visual_scene.set_attribute("name", "Scene".to_owned());
    let bone_count = scene.bones.len();
    let mut b: usize = 0;
    while b < bone_count
        invariant
            b <= bone_count,
            bone_count == scene.bones@.len(),
            element_model(visual_scene) == scene_with_bones(*scene, b as nat),
        decreases bone_count - b,
    {
        if scene.bones[b].parent_index.is_none() {
            visual_scene.add_child(
                build_skeleton_node_recursive_json(&scene.bones, b, bone_count),
            );
        }
        b += 1;
    }
    let mut i: usize = 0;
    while i < n
        invariant
            i <= n,
            n == scene.meshes@.len(),
            element_model(visual_scene) == scene_with_meshes(*scene, i as nat),
        decreases n - i,
    {
        visual_scene.add_child(build_mesh_node(scene, i));
        i += 1;
    }
    let mut library_visual_scenes = XmlElement::new("library_visual_scenes");
    library_visual_scenes.add_child(visual_scene);
    collada.add_child(library_visual_scenes);
    let mut scene_element = XmlElement::new("scene");
    let mut instance = XmlElement::new("instance_visual_scene");
    instance.set_attribute("url", "#Scene".to_owned());
    scene_element.add_child(instance);
    collada.add_child(scene_element);
    Ok(collada)
}

/// A fault among the controllers of some meshes is the fault among those
/// of more.
proof fn lemma_controllers_fault_kept(scene: JsonScene, arithmetic: DaeArithmetic, a: nat, b: nat)
    requires
        a <= b,
        controllers_fault(scene, arithmetic, a) is Some,
    ensures
        controllers_fault(scene, arithmetic, b) == controllers_fault(scene, arithmetic, a),
    decreases b - a,
{
    if a < b {
        lemma_controllers_fault_kept(scene, arithmetic, a, (b - 1) as nat);
    }
}

} // verus!
