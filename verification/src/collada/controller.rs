//! The `<controller>` element of a skinned mesh.

use vstd::prelude::*;
use crate::collada::geometry::{build_input, build_offset_input, input_element, offset_input};
use crate::collada::ids::{
    controller_id,
    decimal,
    decimal_words,
    geometry_id,
    join_numbers,
    joined,
    make_numbered_id,
    reference,
    spaced,
};
use crate::collada::scene::{JsonBone, JsonMeshObject};
use crate::collada::sources::{
    build_source_float_array,
    build_source_mat4_array,
    build_source_name_array,
    flat16,
    float_source,
    matrix_list,
    name_source,
};
use crate::error::DaeError;
use crate::gltf::skin::{influence_lists, strongest, vertex_influences, JointWeight};
use crate::model::Mat4;
use crate::read::hierarchy::matrix_from_rows;
use crate::scalar::{one_bits, zero_bits, Scalar};
use crate::text::{decimal_digits, texts};
use crate::xml::{
    element_model,
    empty_element,
    with_attribute,
    with_child,
    with_numbers,
    with_text,
    ElementModel,
    XmlElement,
};

verus! {

/// A matrix of four columns as sixteen numbers, row by row.
pub open spec fn matrix_rows(m: Mat4) -> Seq<Scalar> {
    Seq::new(16, |i: int| m[i % 4][i / 4])
}

/// A matrix of four columns as sixteen numbers, row by row: the order in
/// which a document carries the matrix of a node.
pub fn mat4_to_row_major(m: &Mat4) -> (r: [Scalar; 16])
    ensures
        r@ == matrix_rows(*m),
{
    let c: [Scalar; 16] = [
        m[0][0],
        m[0][1],
        m[0][2],
        m[0][3],
        m[1][0],
        m[1][1],
        m[1][2],
        m[1][3],
        m[2][0],
        m[2][1],
        m[2][2],
        m[2][3],
        m[3][0],
        m[3][1],
        m[3][2],
        m[3][3],
    ];
    let r = col_major_to_row_major(&c);
    proof {
        assert(r@ =~= matrix_rows(*m));
    }
    r
}

/// The matrix of a node is read back as it was written: the sixteen
/// numbers of a matrix, taken row by row, give the same matrix.
pub proof fn lemma_matrix_read_back(m: Mat4)
    ensures
        matrix_from_rows(matrix_rows(m)) == m,
{
    let back = matrix_from_rows(matrix_rows(m));
    assert forall|c: int| 0 <= c < 4 implies back[c] == m[c] by {
        assert(back[c]@ =~= m[c]@);
    }
    assert(back@ =~= m@);
}

/// Sixteen numbers read as four columns, rewritten row by row.
pub open spec fn transposed(c: [Scalar; 16]) -> Seq<Scalar> {
    Seq::new(16, |i: int| c[(i % 4) * 4 + i / 4])
}

/// Rewrites a matrix that is given column by column, row by row.
pub fn col_major_to_row_major(c: &[Scalar; 16]) -> (r: [Scalar; 16])
    ensures
        r@ == transposed(*c),
{
    let r: [Scalar; 16] = [
        c[0],
        c[4],
        c[8],
        c[12],
        c[1],
        c[5],
        c[9],
        c[13],
        c[2],
        c[6],
        c[10],
        c[14],
        c[3],
        c[7],
        c[11],
        c[15],
    ];
    proof {
        assert(r@ =~= transposed(*c));
    }
    r
}

/// What arithmetic on the weights of a mesh gives for its controller: the
/// table of the different weights, and for each vertex the places in the
/// table of the weights of its strongest influences. A vertex without
/// influence has one place: that of the weight one.
#[derive(Clone, Debug, PartialEq, Eq)]
pub struct ControllerWeights {
    pub weights: Vec<Scalar>,
    pub slots: Vec<Vec<usize>>,
}

/// How many pairs a vertex has in the stream `<v>`: one for each of its
/// strongest influences, one where it has none.
pub open spec fn pair_count(selected: Seq<JointWeight>) -> nat {
    if selected.len() == 0 {
        1
    } else {
        selected.len()
    }
}

/// The pairs of a vertex in the stream `<v>`: for each of its strongest
/// influences the joint and the place of the weight; for a vertex without
/// influence the first joint and the one place it has.
pub open spec fn vertex_pairs(selected: Seq<JointWeight>, slots: Seq<usize>) -> Seq<usize> {
    if selected.len() == 0 {
        seq![0usize, slots[0]]
    } else {
        Seq::new(
            2 * selected.len(),
            |i: int|
                if i % 2 == 0 {
                    selected[i / 2].0
                } else {
                    slots[i / 2]
                },
        )
    }
}

/// Lists of places as plain values.
pub open spec fn place_lists(list: Seq<Vec<usize>>) -> Seq<Seq<usize>> {
    list.map_values(|l: Vec<usize>| l@)
}

/// Whether the places fit the influences: one list of places per vertex,
/// with one place per pair.
pub open spec fn slots_fit(selected: Seq<Seq<JointWeight>>, slots: Seq<Seq<usize>>) -> bool {
    &&& slots.len() == selected.len()
    &&& forall|v: int|
        0 <= v < selected.len() ==> (#[trigger] slots[v]).len() == pair_count(selected[v])
}

/// The counts of the first `upto` vertices.
pub open spec fn pair_counts(selected: Seq<Seq<JointWeight>>, upto: nat) -> Seq<usize>
    decreases upto,
{
    if upto == 0 {
        Seq::empty()
    } else {
        pair_counts(selected, (upto - 1) as nat).push(pair_count(selected[upto - 1]) as usize)
    }
}

/// The pairs of the first `upto` vertices, one after the other.
pub open spec fn all_pairs(selected: Seq<Seq<JointWeight>>, slots: Seq<Seq<usize>>, upto: nat) -> Seq<
    usize,
>
    decreases upto,
{
    if upto == 0 {
        Seq::empty()
    } else {
        all_pairs(selected, slots, (upto - 1) as nat) + vertex_pairs(
            selected[upto - 1],
            slots[upto - 1],
        )
    }
}

/// The streams `<vcount>` and `<v>` of a controller.
#[derive(Clone, Debug, PartialEq, Eq)]
pub struct WeightStreams {
    pub counts: Vec<usize>,
    pub pairs: Vec<usize>,
}

/// The streams `<vcount>` and `<v>` of a controller, if the places fit the
/// influences.
pub fn weight_streams(selected: &Vec<Vec<JointWeight>>, slots: &Vec<Vec<usize>>) -> (r: Option<
    WeightStreams,
>)
    ensures
        r is Some <==> slots_fit(influence_lists(selected@), place_lists(slots@)),
        r matches Some(s) ==> s.counts@ == pair_counts(
            influence_lists(selected@),
            selected@.len(),
        ) && s.pairs@ == all_pairs(
            influence_lists(selected@),
            place_lists(slots@),
            selected@.len(),
        ),
{
    let ghost lists = influence_lists(selected@);
    let ghost places_all = place_lists(slots@);
    let n = selected.len();
    if slots.len() != n {
        return None;
    }
    let mut counts: Vec<usize> = Vec::new();
    let mut pairs: Vec<usize> = Vec::new();
    let mut v: usize = 0;
    while v < n
        invariant
            v <= n,
            n == selected@.len(),
            n == slots@.len(),
            lists == influence_lists(selected@),
            places_all == place_lists(slots@),
            forall|k: int| 0 <= k < v ==> (#[trigger] places_all[k]).len() == pair_count(lists[k]),
            counts@ == pair_counts(lists, v as nat),
            pairs@ == all_pairs(lists, places_all, v as nat),
        decreases n - v,
    {
        let own = &selected[v];
        let places = &slots[v];
        proof {
            assert(lists[v as int] == own@);
            assert(places_all[v as int] == places@);
        }
        let m = own.len();
        if m == 0 {
            if places.len() != 1 {
                return None;
            }
            counts.push(1);
            let ghost prev = pairs@;
            pairs.push(0);
            pairs.push(places[0]);
            proof {
                assert(pairs@ =~= prev + vertex_pairs(own@, places@));
            }
        } else {
            if places.len() != m {
                return None;
            }
            counts.push(m);
            let ghost prev = pairs@;
            let ghost want = vertex_pairs(own@, places@);
            let mut k: usize = 0;
            proof {
                assert(prev + want.take(0) =~= prev);
            }
            while k < m
                invariant
                    k <= m,
                    m == own@.len(),
                    m == places@.len(),
                    m > 0,
                    want == vertex_pairs(own@, places@),
                    pairs@ == prev + want.take(2 * k),
                decreases m - k,
            {
                pairs.push(own[k].0);
                pairs.push(places[k]);
                proof {
                    assert(want[2 * k] == own@[k as int].0);
                    assert(want[2 * k + 1] == places@[k as int]);
                    assert(want.take(2 * k + 2) =~= want.take(2 * k).push(want[2 * k]).push(
                        want[2 * k + 1],
                    ));
                    assert(pairs@ =~= prev + want.take(2 * k + 2));
                }
                k += 1;
            }
            proof {
                assert(want.take(2 * m) =~= want);
            }
        }
        v += 1;
    }
    Some(WeightStreams { counts, pairs })
}

/// The names of a list of bones.
pub open spec fn json_bone_names(bones: Seq<JsonBone>) -> Seq<Seq<char>> {
    bones.map_values(|b: JsonBone| b.name@)
}

fn names_of(bones: &Vec<JsonBone>) -> (r: Vec<String>)
    ensures
        texts(r@) == json_bone_names(bones@),
{
    let mut out: Vec<String> = Vec::new();
    let n = bones.len();
    let mut i: usize = 0;
    while i < n
        invariant
            i <= n,
            n == bones@.len(),
            out@.len() == i,
            forall|k: int| 0 <= k < i ==> out@[k]@ == bones@[k].name@,
        decreases n - i,
    {
        out.push(bones[i].name.clone());
        i += 1;
    }
    proof {
        assert(texts(out@) =~= json_bone_names(bones@));
    }
    out
}

/// The identity matrix as sixteen numbers.
pub open spec fn identity_numbers() -> Seq<Scalar> {
    Seq::new(
        16,
        |i: int|
            if i % 5 == 0 {
                Scalar { bits: one_bits() }
            } else {
                Scalar { bits: zero_bits() }
            },
    )
}

/// The `<skin>` element of a controller up to its sources: the bind shape
/// matrix, which is the identity, the joint names, the inverse bind
/// matrices, and the table of weights.
pub open spec fn skin_sources(
    id: Seq<char>,
    geometry: Seq<char>,
    names: Seq<Seq<char>>,
    inverse_bind_matrices: Seq<[Scalar; 16]>,
    weights: Seq<Scalar>,
) -> ElementModel {
    with_child(
        with_child(
            with_child(
                with_child(
                    with_attribute(empty_element("skin"@), "source"@, "#"@ + geometry),
                    with_numbers(empty_element("bind_shape_matrix"@), identity_numbers()),
                ),
                name_source(id + "-joints"@, names),
            ),
            float_source(id + "-bind_poses"@, flat16(inverse_bind_matrices), 16),
        ),
        float_source(id + "-weights"@, weights, 1),
    )
}

/// The `<joints>` element of a controller.
pub open spec fn joints_element(id: Seq<char>) -> ElementModel {
    with_child(
        with_child(empty_element("joints"@), input_element("JOINT"@, id + "-joints"@)),
        input_element("INV_BIND_MATRIX"@, id + "-bind_poses"@),
    )
}

/// The `<vertex_weights>` element of a controller.
pub open spec fn vertex_weights_element(
    id: Seq<char>,
    vertex_count: nat,
    counts: Seq<usize>,
    pairs: Seq<usize>,
) -> ElementModel {
    with_child(
        with_child(
            with_child(
                with_child(
                    with_attribute(
                        empty_element("vertex_weights"@),
                        "count"@,
                        decimal_digits(vertex_count),
                    ),
                    offset_input("JOINT"@, id + "-joints"@, 0),
                ),
                offset_input("WEIGHT"@, id + "-weights"@, 1),
            ),
            with_text(empty_element("vcount"@), spaced(decimal_words(counts))),
        ),
        with_text(empty_element("v"@), spaced(decimal_words(pairs))),
    )
}

/// The four strongest influences of each vertex of a mesh, bones told by
/// name.
pub open spec fn mesh_influences(m: JsonMeshObject, names: Seq<Seq<char>>) -> Seq<Seq<JointWeight>> {
    Seq::new(
        m.positions@.len(),
        |v: int| strongest(m.bone_influences@, names, usize::MAX as nat, v as nat),
    )
}

/// The four strongest influences of every vertex of a mesh.
pub fn select_mesh_influences(mesh_object: &JsonMeshObject, bones: &Vec<JsonBone>) -> (r: Vec<
    Vec<JointWeight>,
>)
    ensures
        influence_lists(r@) == mesh_influences(*mesh_object, json_bone_names(bones@)),
{
    let names = names_of(bones);
    let selected = vertex_influences(
        &mesh_object.bone_influences,
        &names,
        usize::MAX,
        mesh_object.positions.len(),
    );
    proof {
        assert(influence_lists(selected@) =~= mesh_influences(
            *mesh_object,
            json_bone_names(bones@),
        ));
    }
    selected
}

/// The `<controller>` element of the mesh at position `index`.
pub open spec fn controller_element(
    m: JsonMeshObject,
    index: nat,
    names: Seq<Seq<char>>,
    inverse_bind_matrices: Seq<[Scalar; 16]>,
    skin: ControllerWeights,
) -> ElementModel {
    let id = controller_id(index, m.name@);
    let selected = mesh_influences(m, names);
    with_child(
        with_attribute(empty_element("controller"@), "id"@, id),
        with_child(
            with_child(
                skin_sources(
                    id,
                    geometry_id(index, m.name@),
                    names,
                    inverse_bind_matrices,
                    skin.weights@,
                ),
                joints_element(id),
            ),
            vertex_weights_element(
                id,
                m.positions@.len(),
                pair_counts(selected, selected.len()),
                all_pairs(selected, place_lists(skin.slots@), selected.len()),
            ),
        ),
    )
}

/// What keeps a controller from being built, if anything: places that do
/// not fit the influences of the mesh.
pub open spec fn controller_fault(
    m: JsonMeshObject,
    index: usize,
    names: Seq<Seq<char>>,
    skin: ControllerWeights,
) -> Option<DaeError> {
    if slots_fit(mesh_influences(m, names), place_lists(skin.slots@)) {
        None
    } else {
        Some(DaeError::WeightsMismatch { mesh_index: index })
    }
}

/// The `<controller>` element of the mesh at position `mesh_index`: its
/// skin, with the four strongest influences of every vertex.
pub fn build_controller_element_json(
    mesh_object: &JsonMeshObject,
    mesh_index: usize,
    bones: &Vec<JsonBone>,
    inverse_bind_matrices: &[[Scalar; 16]],
    skin: &ControllerWeights,
) -> (r: Result<XmlElement, DaeError>)
    ensures
        match r {
            Ok(e) => controller_fault(*mesh_object, mesh_index, json_bone_names(bones@), *skin)
                is None && element_model(e) == controller_element(
                *mesh_object,
                mesh_index as nat,
                json_bone_names(bones@),
                inverse_bind_matrices@,
                *skin,
            ),
            Err(e) => controller_fault(*mesh_object, mesh_index, json_bone_names(bones@), *skin)
                == Some(e),
        },
{
    let names = names_of(bones);
    let vertex_total = mesh_object.positions.len();
    let selected = select_mesh_influences(mesh_object, bones);
    let streams = match weight_streams(&selected, &skin.slots) {
        Some(s) => s,
        None => {
            return Err(DaeError::WeightsMismatch { mesh_index });
        },
    };
    let geom_id = make_numbered_id("geom_", mesh_index, mesh_object.name.as_str());
    let ctrl_id = make_numbered_id("ctrl_", mesh_index, mesh_object.name.as_str());
    let id = ctrl_id.as_str();
    let mut controller = XmlElement::new("controller");
    controller.set_attribute("id", ctrl_id.clone());
    let mut skin_element = XmlElement::new("skin");
    skin_element.set_attribute("source", reference(geom_id.as_str()));
    let o = Scalar::one();
    let z = Scalar::zero();
    let identity: [Scalar; 16] = [o, z, z, z, z, o, z, z, z, z, o, z, z, z, z, o];
    let identity_list = matrix_list(&identity);
    proof {
        assert(identity_list@ =~= identity_numbers());
    }
    let mut bind_shape = XmlElement::new("bind_shape_matrix");
    bind_shape.add_numbers(&identity_list);
    skin_element.add_child(bind_shape);
    let joint_source_id = joined(id, "-joints");
    let bind_pose_source_id = joined(id, "-bind_poses");
    let weights_source_id = joined(id, "-weights");
    skin_element.add_child(build_source_name_array(joint_source_id.as_str(), &names));
    skin_element.add_child(
        build_source_mat4_array(bind_pose_source_id.as_str(), inverse_bind_matrices),
    );
    skin_element.add_child(build_source_float_array(weights_source_id.as_str(), &skin.weights, 1));
    let mut joints = XmlElement::new("joints");
    joints.add_child(build_input("JOINT", joint_source_id.as_str()));
    joints.add_child(build_input("INV_BIND_MATRIX", bind_pose_source_id.as_str()));
    skin_element.add_child(joints);
    let mut vertex_weights = XmlElement::new("vertex_weights");
    vertex_weights.set_attribute("count", decimal(vertex_total));
    vertex_weights.add_child(build_offset_input("JOINT", joint_source_id.as_str(), 0));
    vertex_weights.add_child(build_offset_input("WEIGHT", weights_source_id.as_str(), 1));
    let mut vcount = XmlElement::new("vcount");
    vcount.add_text(join_numbers(&streams.counts));
    vertex_weights.add_child(vcount);
    let mut v = XmlElement::new("v");
    v.add_text(join_numbers(&streams.pairs));
    vertex_weights.add_child(v);
    skin_element.add_child(vertex_weights);
    controller.add_child(skin_element);
    Ok(controller)
}

} // verus!
