//! The bone hierarchy of a document: a walk over its `<node>` elements that
//! lists every bone after its parent.

use vstd::prelude::*;
use crate::lists::optional_view;
use crate::model::{identity, identity_transform, DaeBone, Mat4};
use crate::numbers::{read_all_scalars, strict_scalars};
use crate::scalar::{one_bits, zero_bits, Scalar};
use crate::text::{contains_text, lowercase, text_contains, text_eq};
use crate::xml::{
    all_owned,
    find_all_children,
    find_child,
    get_attribute,
    get_element_text,
    XmlElement,
    XmlNode,
};

verus! {

/// A bone as plain values.
pub struct BoneModel {
    pub name: Seq<char>,
    pub parent_index: Option<usize>,
    pub transform: Mat4,
    pub inverse_bind_matrix: Option<Mat4>,
}

impl DaeBone {
    /// The bone as plain values.
    pub open spec fn model(self) -> BoneModel {
        BoneModel {
            name: self.name@,
            parent_index: self.parent_index,
            transform: self.transform,
            inverse_bind_matrix: self.inverse_bind_matrix,
        }
    }
}

/// A list of bones as plain values.
pub open spec fn bone_models(list: Seq<DaeBone>) -> Seq<BoneModel> {
    list.map_values(|b: DaeBone| b.model())
}

/// The matrix whose sixteen numbers `values` gives row by row.
pub open spec fn matrix_from_rows(values: Seq<Scalar>) -> Mat4 {
    [
        [values[0], values[4], values[8], values[12]],
        [values[1], values[5], values[9], values[13]],
        [values[2], values[6], values[10], values[14]],
        [values[3], values[7], values[11], values[15]],
    ]
}

/// The identity matrix with the translation `(x, y, z)` in its last column.
pub open spec fn translation_matrix(x: Scalar, y: Scalar, z: Scalar) -> Mat4 {
    let o = Scalar { bits: one_bits() };
    let n = Scalar { bits: zero_bits() };
    [[o, n, n, n], [n, o, n, n], [n, n, o, n], [x, y, z, o]]
}

/// The numbers in the text of the child `name` of `node`, if every word of
/// that text is a number.
pub open spec fn child_numbers(node: XmlElement, name: Seq<char>) -> Option<Seq<Scalar>> {
    match node.child(name) {
        Some(c) => match c.text() {
            Some(t) => strict_scalars(t.scalars@),
            None => None,
        },
        None => None,
    }
}

/// The matrix that a `<matrix>` child gives, if it holds sixteen numbers or
/// more.
pub open spec fn explicit_matrix(node: XmlElement) -> Option<Mat4> {
    match child_numbers(node, "matrix"@) {
        Some(values) => if values.len() >= 16 {
            Some(matrix_from_rows(values))
        } else {
            None
        },
        None => None,
    }
}

/// The local transform of a node: its `<matrix>`, given row by row, as
/// columns; else the identity with the translation of its `<translate>`, if
/// that holds three numbers or more. Rotations and scales given apart are
/// not taken in.
pub open spec fn node_transform(node: XmlElement) -> Mat4 {
    match explicit_matrix(node) {
        Some(m) => m,
        None => match child_numbers(node, "translate"@) {
            Some(values) => if values.len() >= 3 {
                translation_matrix(values[0], values[1], values[2])
            } else {
                identity_transform()
            },
            None => identity_transform(),
        },
    }
}

fn read_child_numbers(node: &XmlElement, name: &str) -> (r: Option<Vec<Scalar>>)
    ensures
        optional_view(r) == child_numbers(*node, name@),
{
    match find_child(node, name) {
        Some(c) => match get_element_text(c) {
            Some(t) => read_all_scalars(t),
            None => None,
        },
        None => None,
    }
}

/// The local transform of a node.
pub fn parse_node_transform(node: &XmlElement) -> (r: Mat4)
    ensures
        r == node_transform(*node),
{
    match read_child_numbers(node, "matrix") {
        Some(values) => {
            if values.len() >= 16 {
                let m: Mat4 = [
                    [values[0], values[4], values[8], values[12]],
                    [values[1], values[5], values[9], values[13]],
                    [values[2], values[6], values[10], values[14]],
                    [values[3], values[7], values[11], values[15]],
                ];
                return m;
            }
        },
        None => {},
    }
    let o = Scalar::one();
    let n = Scalar::zero();
    match read_child_numbers(node, "translate") {
        Some(values) => {
            if values.len() >= 3 {
                let m: Mat4 = [
                    [o, n, n, n],
                    [n, o, n, n],
                    [n, n, o, n],
                    [values[0], values[1], values[2], o],
                ];
                return m;
            }
        },
        None => {},
    }
    identity()
}

/// Whether a text, in lower case, holds `bone` or `joint`.
pub open spec fn marks_bone(text: Seq<char>) -> bool {
    contains_text(lowercase(text), "bone"@) || contains_text(lowercase(text), "joint"@)
}

/// The text of an optional string, empty where there is none.
pub open spec fn text_or_empty(s: Option<String>) -> Seq<char> {
    match s {
        Some(t) => t@,
        None => Seq::empty(),
    }
}

/// Whether a node is a bone by itself: by its type `JOINT`, or by a marker
/// in its id, its name or its sid. Where it has no name its id is looked
/// at in its place.
pub open spec fn names_bone(node: XmlElement) -> bool {
    let id = text_or_empty(node.attribute("id"@));
    let name = match node.attribute("name"@) {
        Some(n) => n@,
        None => id,
    };
    text_or_empty(node.attribute("type"@)) == "JOINT"@ || marks_bone(id) || marks_bone(name)
        || marks_bone(text_or_empty(node.attribute("sid"@)))
}

/// The name of the bone that a node makes: its name, else its sid, else its
/// id; the empty name for a node that has none of the three.
pub open spec fn bone_name(node: XmlElement) -> Seq<char> {
    match node.attribute("name"@) {
        Some(n) => n@,
        None => match node.attribute("sid"@) {
            Some(s) => s@,
            None => text_or_empty(node.attribute("id"@)),
        },
    }
}

/// The bones after `node` and all below it are visited under the bone at
/// `parent`. A node is a bone if it names one or stands below one; a bone
/// goes to the end of the list and is the parent of the bones below it.
/// Under a node that is no bone the walk goes on with the same parent.
pub open spec fn bones_with_node(bones: Seq<BoneModel>, node: XmlElement, parent: Option<usize>) -> Seq<
    BoneModel,
>
    decreases node,
{
    if names_bone(node) || parent is Some {
        bones_with_children(
            bones.push(
                BoneModel {
                    name: bone_name(node),
                    parent_index: parent,
                    transform: node_transform(node),
                    inverse_bind_matrix: None,
                },
            ),
            node.children@,
            Some(bones.len() as usize),
        )
    } else {
        bones_with_children(bones, node.children@, parent)
    }
}

/// The bones after those of `children` that are `<node>` elements are
/// visited in order.
pub open spec fn bones_with_children(
    bones: Seq<BoneModel>,
    children: Seq<XmlNode>,
    parent: Option<usize>,
) -> Seq<BoneModel>
    decreases children,
{
    if children.len() == 0 {
        bones
    } else {
        let before = bones_with_children(bones, children.drop_last(), parent);
        match children.last() {
            XmlNode::Element(e) => if e.name@ == "node"@ {
                bones_with_node(before, e, parent)
            } else {
                before
            },
            _ => before,
        }
    }
}

/// Whether a text, in lower case, holds `bone` or `joint`.
pub fn has_bone_marker(text: &str) -> (r: bool)
    ensures
        r == marks_bone(text@),
{
    let lower = text.to_lowercase();
    text_contains(lower.as_str(), "bone") || text_contains(lower.as_str(), "joint")
}

fn attribute_marks_bone(node: &XmlElement, name: &str) -> (r: bool)
    ensures
        r == marks_bone(text_or_empty(node.attribute(name@))),
{
    proof {
        reveal_strlit("");
        assert(""@ =~= Seq::<char>::empty());
    }
    match get_attribute(node, name) {
        Some(text) => has_bone_marker(text.as_str()),
        None => has_bone_marker(""),
    }
}

fn node_names_bone(node: &XmlElement) -> (r: bool)
    ensures
        r == names_bone(*node),
{
    proof {
        reveal_strlit("JOINT");
        assert("JOINT"@.len() == 5);
        assert(Seq::<char>::empty().len() == 0);
    }
    let typed = match get_attribute(node, "type") {
        Some(t) => text_eq(t.as_str(), "JOINT"),
        None => false,
    };
    if typed || attribute_marks_bone(node, "id") {
        return true;
    }
    let named = match get_attribute(node, "name") {
        Some(n) => has_bone_marker(n.as_str()),
        None => attribute_marks_bone(node, "id"),
    };
    named || attribute_marks_bone(node, "sid")
}

fn node_bone_name(node: &XmlElement) -> (r: String)
    ensures
        r@ == bone_name(*node),
{
    match get_attribute(node, "name") {
        Some(n) => n.clone(),
        None => match get_attribute(node, "sid") {
            Some(s) => s.clone(),
            None => match get_attribute(node, "id") {
                Some(id) => id.clone(),
                None => String::new(),
            },
        },
    }
}

/// Visits `node` and all below it, and adds the bones found to `bones`.
pub fn parse_node_hierarchy(node: &XmlElement, parent_index: Option<usize>, bones: &mut Vec<DaeBone>)
    ensures
        bone_models(final(bones)@) == bones_with_node(
            bone_models(old(bones)@),
            *node,
            parent_index,
        ),
    decreases node, 1nat,
{
    if node_names_bone(node) || parent_index.is_some() {
        let bone = DaeBone {
            name: node_bone_name(node),
            parent_index,
            transform: parse_node_transform(node),
            inverse_bind_matrix: None,
        };
        let current = bones.len();
        let ghost before = bone_models(bones@);
        bones.push(bone);
        proof {
            assert(bone_models(bones@) =~= before.push(bone.model()));
        }
        visit_children(node, Some(current), bones);
    } else {
        visit_children(node, parent_index, bones);
    }
}

/// Visits the `<node>` children of `node` in order.
fn visit_children(node: &XmlElement, parent_index: Option<usize>, bones: &mut Vec<DaeBone>)
    ensures
        bone_models(final(bones)@) == bones_with_children(
            bone_models(old(bones)@),
            node.children@,
            parent_index,
        ),
    decreases node, 0nat,
{
    let n = node.children.len();
    let mut i: usize = 0;
    proof {
        assert(node.children@.take(0) =~= Seq::<XmlNode>::empty());
    }
    while i < n
        invariant
            i <= n,
            n == node.children@.len(),
            bone_models(bones@) == bones_with_children(
                bone_models(old(bones)@),
                node.children@.take(i as int),
                parent_index,
            ),
        decreases n - i,
    {
        proof {
            assert(node.children@.take(i + 1).drop_last() =~= node.children@.take(i as int));
            assert(node.children@.take(i + 1).last() == node.children@[i as int]);
        }
        match &node.children[i] {
            XmlNode::Element(e) => {
                if text_eq(e.name.as_str(), "node") {
                    parse_node_hierarchy(e, parent_index, bones);
                }
            },
            _ => {},
        }
        i += 1;
    }
    proof {
        assert(node.children@.take(n as int) =~= node.children@);
    }
}

/// The bones after the `<node>` elements among `nodes` are visited as roots.
pub open spec fn bones_with_roots(bones: Seq<BoneModel>, nodes: Seq<XmlElement>) -> Seq<BoneModel>
    decreases nodes.len(),
{
    if nodes.len() == 0 {
        bones
    } else {
        bones_with_node(bones_with_roots(bones, nodes.drop_last()), nodes.last(), None)
    }
}

/// The bones after the nodes of each of `scenes` are visited.
pub open spec fn bones_with_scenes(bones: Seq<BoneModel>, scenes: Seq<XmlElement>) -> Seq<BoneModel>
    decreases scenes.len(),
{
    if scenes.len() == 0 {
        bones
    } else {
        bones_with_roots(
            bones_with_scenes(bones, scenes.drop_last()),
            scenes.last().children_named("node"@),
        )
    }
}

/// The bones of a `<library_nodes>` element.
pub open spec fn library_bones(library: XmlElement) -> Seq<BoneModel> {
    bones_with_roots(Seq::empty(), library.children_named("node"@))
}

/// The bones of a `<library_visual_scenes>` element.
pub open spec fn scene_bones(library: XmlElement) -> Seq<BoneModel> {
    bones_with_scenes(Seq::empty(), library.children_named("visual_scene"@))
}

fn visit_roots(parent: &XmlElement, bones: &mut Vec<DaeBone>)
    ensures
        bone_models(final(bones)@) == bones_with_roots(
            bone_models(old(bones)@),
            parent.children_named("node"@),
        ),
{
    let nodes = find_all_children(parent, "node");
    let ghost all = all_owned(nodes@);
    let n = nodes.len();
    let mut i: usize = 0;
    proof {
        assert(all.take(0) =~= Seq::<XmlElement>::empty());
    }
    while i < n
        invariant
            i <= n,
            n == nodes@.len(),
            all == all_owned(nodes@),
            all == parent.children_named("node"@),
            bone_models(bones@) == bones_with_roots(
                bone_models(old(bones)@),
                all.take(i as int),
            ),
        decreases n - i,
    {
        proof {
            assert(all.take(i + 1).drop_last() =~= all.take(i as int));
            assert(all.take(i + 1).last() == *nodes@[i as int]);
        }
        parse_node_hierarchy(nodes[i], None, bones);
        i += 1;
    }
    proof {
        assert(all.take(n as int) =~= all);
    }
}

/// The bones of a `<library_nodes>` element.
pub fn parse_bone_hierarchy_from_nodes(lib_nodes: &XmlElement) -> (r: Vec<DaeBone>)
    ensures
        bone_models(r@) == library_bones(*lib_nodes),
        parents_precede(bone_models(r@)),
{
    let mut bones: Vec<DaeBone> = Vec::new();
    proof {
        assert(bone_models(bones@) =~= Seq::<BoneModel>::empty());
    }
    visit_roots(lib_nodes, &mut bones);
    proof {
        assert(bone_models(bones@).len() == bones.len());
        lemma_bones_with_roots(Seq::empty(), lib_nodes.children_named("node"@));
    }
    bones
}

/// The bones of a `<library_visual_scenes>` element.
pub fn parse_bone_hierarchy_from_visual_scenes(lib_visual_scenes: &XmlElement) -> (r: Vec<
    DaeBone,
>)
    ensures
        bone_models(r@) == scene_bones(*lib_visual_scenes),
        parents_precede(bone_models(r@)),
{
    let mut bones: Vec<DaeBone> = Vec::new();
    let scenes = find_all_children(lib_visual_scenes, "visual_scene");
    let ghost all = all_owned(scenes@);
    let n = scenes.len();
    let mut i: usize = 0;
    proof {
        assert(all.take(0) =~= Seq::<XmlElement>::empty());
        assert(bone_models(bones@) =~= Seq::<BoneModel>::empty());
    }
    while i < n
        invariant
            i <= n,
            n == scenes@.len(),
            all == all_owned(scenes@),
            all == lib_visual_scenes.children_named("visual_scene"@),
            bone_models(bones@) == bones_with_scenes(Seq::empty(), all.take(i as int)),
        decreases n - i,
    {
        proof {
            assert(all.take(i + 1).drop_last() =~= all.take(i as int));
            assert(all.take(i + 1).last() == *scenes@[i as int]);
        }
        visit_roots(scenes[i], &mut bones);
        i += 1;
    }
    proof {
        assert(all.take(n as int) =~= all);
        assert(bone_models(bones@).len() == bones.len());
        lemma_bones_with_scenes(Seq::empty(), all);
    }
    bones
}

/// Every bone that has a parent stands after it.
pub open spec fn parents_precede(bones: Seq<BoneModel>) -> bool {
    forall|k: int|
        0 <= k < bones.len() ==> match (#[trigger] bones[k]).parent_index {
            Some(p) => p < k,
            None => true,
        }
}

/// Visiting a node keeps the bones that are there and adds bones whose
/// parents stand before them.
pub proof fn lemma_bones_with_node(bones: Seq<BoneModel>, node: XmlElement, parent: Option<usize>)
    requires
        parents_precede(bones),
        parent matches Some(p) ==> p < bones.len(),
        bones_with_node(bones, node, parent).len() <= usize::MAX,
    ensures
        parents_precede(bones_with_node(bones, node, parent)),
        bones.len() <= bones_with_node(bones, node, parent).len(),
        forall|k: int| 0 <= k < bones.len() ==> bones_with_node(bones, node, parent)[k] == bones[k],
    decreases node, 1nat,
{
    if names_bone(node) || parent is Some {
        let bone = BoneModel {
            name: bone_name(node),
            parent_index: parent,
            transform: node_transform(node),
            inverse_bind_matrix: None,
        };
        let with = bones.push(bone);
        lemma_children_grow(with, node.children@, Some(bones.len() as usize));
        assert(parents_precede(with)) by {
            assert forall|k: int| 0 <= k < with.len() implies match (#[trigger] with[
                k
            ]).parent_index {
                Some(p) => p < k,
                None => true,
            } by {
                if k < bones.len() {
                    assert(with[k] == bones[k]);
                }
            }
        }
        lemma_bones_with_children(with, node.children@, Some(bones.len() as usize));
        assert forall|k: int| 0 <= k < bones.len() implies bones_with_node(bones, node, parent)[k]
            == bones[k] by {
            assert(with[k] == bones[k]);
        }
    } else {
        lemma_bones_with_children(bones, node.children@, parent);
    }
}

/// Visiting children never takes bones away.
proof fn lemma_children_grow(bones: Seq<BoneModel>, children: Seq<XmlNode>, parent: Option<usize>)
    ensures
        bones.len() <= bones_with_children(bones, children, parent).len(),
    decreases children, 0nat,
{
    if children.len() > 0 {
        lemma_children_grow(bones, children.drop_last(), parent);
        let before = bones_with_children(bones, children.drop_last(), parent);
        match children.last() {
            XmlNode::Element(e) => {
                if e.name@ == "node"@ {
                    lemma_node_grows(before, e, parent);
                }
            },
            _ => {},
        }
    }
}

/// Visiting a node never takes bones away.
proof fn lemma_node_grows(bones: Seq<BoneModel>, node: XmlElement, parent: Option<usize>)
    ensures
        bones.len() <= bones_with_node(bones, node, parent).len(),
    decreases node, 1nat,
{
    if names_bone(node) || parent is Some {
        let bone = BoneModel {
            name: bone_name(node),
            parent_index: parent,
            transform: node_transform(node),
            inverse_bind_matrix: None,
        };
        lemma_children_grow(bones.push(bone), node.children@, Some(bones.len() as usize));
    } else {
        lemma_children_grow(bones, node.children@, parent);
    }
}

/// Visiting children keeps the bones that are there and adds bones whose
/// parents stand before them.
pub proof fn lemma_bones_with_children(
    bones: Seq<BoneModel>,
    children: Seq<XmlNode>,
    parent: Option<usize>,
)
    requires
        parents_precede(bones),
        parent matches Some(p) ==> p < bones.len(),
        bones_with_children(bones, children, parent).len() <= usize::MAX,
    ensures
        parents_precede(bones_with_children(bones, children, parent)),
        bones.len() <= bones_with_children(bones, children, parent).len(),
        forall|k: int|
            0 <= k < bones.len() ==> bones_with_children(bones, children, parent)[k] == bones[k],
    decreases children, 0nat,
{
    if children.len() > 0 {
        let before = bones_with_children(bones, children.drop_last(), parent);
        match children.last() {
            XmlNode::Element(e) => {
                if e.name@ == "node"@ {
                    lemma_node_grows(before, e, parent);
                    lemma_bones_with_children(bones, children.drop_last(), parent);
                    lemma_bones_with_node(before, e, parent);
                } else {
                    lemma_bones_with_children(bones, children.drop_last(), parent);
                }
            },
            _ => {
                lemma_bones_with_children(bones, children.drop_last(), parent);
            },
        }
    }
}

proof fn lemma_roots_grow(bones: Seq<BoneModel>, nodes: Seq<XmlElement>)
    ensures
        bones.len() <= bones_with_roots(bones, nodes).len(),
    decreases nodes.len(),
{
    if nodes.len() > 0 {
        lemma_roots_grow(bones, nodes.drop_last());
        lemma_node_grows(bones_with_roots(bones, nodes.drop_last()), nodes.last(), None);
    }
}

/// Visiting root nodes keeps parents before their bones.
pub proof fn lemma_bones_with_roots(bones: Seq<BoneModel>, nodes: Seq<XmlElement>)
    requires
        parents_precede(bones),
        bones_with_roots(bones, nodes).len() <= usize::MAX,
    ensures
        parents_precede(bones_with_roots(bones, nodes)),
    decreases nodes.len(),
{
    if nodes.len() > 0 {
        let before = bones_with_roots(bones, nodes.drop_last());
        lemma_node_grows(before, nodes.last(), None);
        lemma_bones_with_roots(bones, nodes.drop_last());
        lemma_bones_with_node(before, nodes.last(), None);
    }
}

proof fn lemma_scenes_grow(bones: Seq<BoneModel>, scenes: Seq<XmlElement>)
    ensures
        bones.len() <= bones_with_scenes(bones, scenes).len(),
    decreases scenes.len(),
{
    if scenes.len() > 0 {
        lemma_scenes_grow(bones, scenes.drop_last());
        lemma_roots_grow(
            bones_with_scenes(bones, scenes.drop_last()),
            scenes.last().children_named("node"@),
        );
    }
}

/// Visiting the nodes of scenes keeps parents before their bones.
pub proof fn lemma_bones_with_scenes(bones: Seq<BoneModel>, scenes: Seq<XmlElement>)
    requires
        parents_precede(bones),
        bones_with_scenes(bones, scenes).len() <= usize::MAX,
    ensures
        parents_precede(bones_with_scenes(bones, scenes)),
    decreases scenes.len(),
{
    if scenes.len() > 0 {
        let before = bones_with_scenes(bones, scenes.drop_last());
        lemma_roots_grow(before, scenes.last().children_named("node"@));
        lemma_bones_with_scenes(bones, scenes.drop_last());
        lemma_bones_with_roots(before, scenes.last().children_named("node"@));
    }
}

} // verus!
