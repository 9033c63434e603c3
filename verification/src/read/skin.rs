//! Skin data: which bone moves which vertex, and how much.

use vstd::prelude::*;
use crate::model::{DaeBoneInfluence, DaeMesh, DaeVertexWeight};
use crate::numbers::{loose_scalars, read_scalars, read_usize, read_usizes, usize_text, usize_words};
use crate::scalar::Scalar;
use crate::text::{contains_text, split_text, text_contains, text_eq, texts, words};
use crate::xml::{
    all_owned,
    find_all_children,
    find_child,
    get_attribute,
    get_element_text,
    XmlElement,
};

verus! {

/// A bone influence as plain values.
pub struct InfluenceModel {
    pub bone_name: Seq<char>,
    pub vertex_weights: Seq<DaeVertexWeight>,
}

impl DaeBoneInfluence {
    /// The influence as plain values.
    pub open spec fn model(self) -> InfluenceModel {
        InfluenceModel { bone_name: self.bone_name@, vertex_weights: self.vertex_weights@ }
    }
}

/// A list of bone influences as plain values.
pub open spec fn influence_models(list: Seq<DaeBoneInfluence>) -> Seq<InfluenceModel> {
    list.map_values(|b: DaeBoneInfluence| b.model())
}

/// The position of the influence of the bone `name`.
pub open spec fn influence_position(list: Seq<InfluenceModel>, name: Seq<char>) -> Option<int>
    decreases list.len(),
{
    if list.len() == 0 {
        None
    } else {
        match influence_position(list.drop_last(), name) {
            Some(i) => Some(i),
            None => if list.last().bone_name == name {
                Some(list.len() - 1)
            } else {
                None
            },
        }
    }
}

/// The influences with one more weight for the bone `name`: added to the
/// influence of that bone, or to a new one at the end.
pub open spec fn with_weight(list: Seq<InfluenceModel>, name: Seq<char>, w: DaeVertexWeight) -> Seq<
    InfluenceModel,
> {
    match influence_position(list, name) {
        Some(i) => list.update(
            i,
            InfluenceModel { bone_name: name, vertex_weights: list[i].vertex_weights.push(w) },
        ),
        None => list.push(InfluenceModel { bone_name: name, vertex_weights: seq![w] }),
    }
}

/// The position of an influence by bone is that of the first influence of
/// that bone.
pub proof fn lemma_influence_position(list: Seq<InfluenceModel>, name: Seq<char>)
    ensures
        match influence_position(list, name) {
            Some(i) => 0 <= i < list.len() && list[i].bone_name == name && forall|k: int|
                0 <= k < i ==> list[k].bone_name != name,
            None => forall|k: int| 0 <= k < list.len() ==> list[k].bone_name != name,
        },
    decreases list.len(),
{
    if list.len() > 0 {
        lemma_influence_position(list.drop_last(), name);
        assert forall|k: int| 0 <= k < list.len() - 1 implies list.drop_last()[k] == list[k] by {}
    }
}

/// Adds one weight for the bone `name`.
pub fn add_weight(list: &mut Vec<DaeBoneInfluence>, name: &str, w: DaeVertexWeight)
    ensures
        influence_models(final(list)@) == with_weight(influence_models(old(list)@), name@, w),
{
    let ghost before = influence_models(list@);
    proof {
        lemma_influence_position(before, name@);
    }
    let n = list.len();
    let mut i: usize = 0;
    while i < n
        invariant
            i <= n,
            n == list@.len(),
            before == influence_models(list@),
            before == influence_models(old(list)@),
            forall|k: int| 0 <= k < i ==> before[k].bone_name != name@,
        decreases n - i,
    {
        if text_eq(list[i].bone_name.as_str(), name) {
            let ghost prev = list@;
            list[i].vertex_weights.push(w);
            proof {
                lemma_influence_position(before, name@);
                assert(before[i as int] == prev[i as int].model());
                assert(influence_position(before, name@) == Some(i as int));
                assert(list@.len() == prev.len());
                assert(list@[i as int].bone_name == prev[i as int].bone_name);
                assert(list@[i as int].vertex_weights@ == prev[i as int].vertex_weights@.push(w));
                assert forall|k: int| 0 <= k < n && k != i implies list@[k] == prev[k] by {}
                assert(influence_models(list@) =~= with_weight(before, name@, w));
            }
            return ;
        }
        i += 1;
    }
    let mut weights: Vec<DaeVertexWeight> = Vec::new();
    weights.push(w);
    list.push(DaeBoneInfluence { bone_name: name.to_owned(), vertex_weights: weights });
    proof {
        lemma_influence_position(before, name@);
        assert(influence_models(list@) =~= with_weight(before, name@, w));
    }
}

/// The smaller of two numbers.
pub open spec fn least(a: nat, b: nat) -> nat {
    if a <= b {
        a
    } else {
        b
    }
}

/// How many index pairs are used up once the first `vertices` vertices have
/// taken theirs out of `pairs` pairs: each takes as many as it counts, as
/// long as there are any.
pub open spec fn consumed(vcounts: Seq<usize>, vertices: nat, pairs: nat) -> nat
    decreases vertices,
{
    if vertices == 0 {
        0
    } else {
        least(
            consumed(vcounts, (vertices - 1) as nat, pairs) + vcounts[vertices - 1] as nat,
            pairs,
        )
    }
}

/// The influences after pair `k` of the stream `v` is read for `vertex`: the
/// pair names a joint and a weight; it counts if both exist and the weight
/// is not zero. A weight below zero or above one counts too.
pub open spec fn with_pair(
    list: Seq<InfluenceModel>,
    v: Seq<usize>,
    names: Seq<Seq<char>>,
    weights: Seq<Scalar>,
    vertex: nat,
    k: nat,
) -> Seq<InfluenceModel> {
    let joint = v[2 * k as int];
    let slot = v[2 * k as int + 1];
    if joint < names.len() && slot < weights.len() && !weights[slot as int].is_zero() {
        with_weight(
            list,
            names[joint as int],
            DaeVertexWeight { vertex_index: vertex as u32, weight: weights[slot as int] },
        )
    } else {
        list
    }
}

/// The influences after the pairs `from..to` are read for `vertex`.
pub open spec fn with_pairs(
    list: Seq<InfluenceModel>,
    v: Seq<usize>,
    names: Seq<Seq<char>>,
    weights: Seq<Scalar>,
    vertex: nat,
    from: nat,
    to: nat,
) -> Seq<InfluenceModel>
    decreases to,
{
    if from >= to {
        list
    } else {
        with_pair(
            with_pairs(list, v, names, weights, vertex, from, (to - 1) as nat),
            v,
            names,
            weights,
            vertex,
            (to - 1) as nat,
        )
    }
}

/// The influences after the first `vertices` vertices.
pub open spec fn influences_after(
    vcounts: Seq<usize>,
    v: Seq<usize>,
    names: Seq<Seq<char>>,
    weights: Seq<Scalar>,
    vertices: nat,
) -> Seq<InfluenceModel>
    decreases vertices,
{
    if vertices == 0 {
        Seq::empty()
    } else {
        with_pairs(
            influences_after(vcounts, v, names, weights, (vertices - 1) as nat),
            v,
            names,
            weights,
            (vertices - 1) as nat,
            consumed(vcounts, (vertices - 1) as nat, v.len() / 2),
            consumed(vcounts, vertices, v.len() / 2),
        )
    }
}

/// The influences that skin data yields: per vertex a count in `vcounts`,
/// and in `v` that many pairs of a joint and a weight, by position in
/// `names` and `weights`. Influences stand in the order in which their bones
/// first occur.
pub open spec fn skin_influences(
    vcounts: Seq<usize>,
    v: Seq<usize>,
    names: Seq<Seq<char>>,
    weights: Seq<Scalar>,
) -> Seq<InfluenceModel> {
    influences_after(vcounts, v, names, weights, vcounts.len())
}

/// No more pairs are used up than there are.
pub proof fn lemma_consumed_bound(vcounts: Seq<usize>, vertices: nat, pairs: nat)
    ensures
        consumed(vcounts, vertices, pairs) <= pairs,
    decreases vertices,
{
    if vertices > 0 {
        lemma_consumed_bound(vcounts, (vertices - 1) as nat, pairs);
    }
}

/// Groups the weights of skin data by bone.
pub fn resolve_influences(
    vcounts: &Vec<usize>,
    v: &Vec<usize>,
    joint_names: &Vec<String>,
    weights: &Vec<Scalar>,
) -> (r: Vec<DaeBoneInfluence>)
    ensures
        influence_models(r@) == skin_influences(vcounts@, v@, texts(joint_names@), weights@),
{
    let ghost names = texts(joint_names@);
    let stream_len = v.len();
    let pairs = stream_len / 2;
    let mut out: Vec<DaeBoneInfluence> = Vec::new();
    let mut cursor: usize = 0;
    let n = vcounts.len();
    let mut vertex: usize = 0;
    proof {
        assert(influence_models(out@) =~= Seq::<InfluenceModel>::empty());
    }
    while vertex < n
        invariant
            vertex <= n,
            n == vcounts@.len(),
            stream_len == v@.len(),
            pairs == stream_len / 2,
            names == texts(joint_names@),
            cursor == consumed(vcounts@, vertex as nat, pairs as nat),
            cursor <= pairs,
            influence_models(out@) == influences_after(
                vcounts@,
                v@,
                names,
                weights@,
                vertex as nat,
            ),
        decreases n - vertex,
    {
        let count = vcounts[vertex];
        let end: usize = if count > pairs - cursor {
            pairs
        } else {
            cursor + count
        };
        let ghost start_list = influence_models(out@);
        let mut k: usize = cursor;
        while k < end
            invariant
                cursor <= k <= end <= pairs,
                stream_len == v@.len(),
                pairs == stream_len / 2,
                names == texts(joint_names@),
                influence_models(out@) == with_pairs(
                    start_list,
                    v@,
                    names,
                    weights@,
                    vertex as nat,
                    cursor as nat,
                    k as nat,
                ),
            decreases end - k,
        {
            let joint = v[2 * k];
            let slot = v[2 * k + 1];
            if joint < joint_names.len() && slot < weights.len() && !weights[slot].zero_valued() {
                proof {
                    assert(names[joint as int] == joint_names@[joint as int]@);
                }
                add_weight(
                    &mut out,
                    joint_names[joint].as_str(),
                    DaeVertexWeight {
                        vertex_index: #[verifier::truncate]
                        (vertex as u32),
                        weight: weights[slot],
                    },
                );
            }
            k += 1;
        }
        cursor = end;
        vertex += 1;
    }
    out
}

/// The unsigned numbers in the text of the child `name` of `e`.
pub open spec fn count_stream(e: XmlElement, name: Seq<char>) -> Seq<usize> {
    match e.child(name) {
        Some(c) => match c.text() {
            Some(t) => usize_words(t.text@),
            None => Seq::empty(),
        },
        None => Seq::empty(),
    }
}

/// The influences of a mesh after a `<vertex_weights>` element is read for
/// it: those that its streams `<vcount>` and `<v>` yield, or the former ones
/// where `<vcount>` does not hold `vertex_count` numbers.
pub open spec fn resolved_influences(
    vertex_weights: XmlElement,
    current: Seq<InfluenceModel>,
    names: Seq<Seq<char>>,
    weights: Seq<Scalar>,
    vertex_count: usize,
) -> Seq<InfluenceModel> {
    let vcounts = count_stream(vertex_weights, "vcount"@);
    let v = count_stream(vertex_weights, "v"@);
    if vcounts.len() != vertex_count {
        current
    } else {
        skin_influences(vcounts, v, names, weights)
    }
}

fn read_count_stream(e: &XmlElement, name: &str) -> (r: Vec<usize>)
    ensures
        r@ == count_stream(*e, name@),
{
    match find_child(e, name) {
        Some(c) => match get_element_text(c) {
            Some(t) => read_usizes(t.text.as_str()),
            None => Vec::new(),
        },
        None => Vec::new(),
    }
}

/// Reads the weights per vertex out of a `<vertex_weights>` element and
/// groups them by bone into the influences of `mesh`.
pub fn parse_vertex_weights_data(
    vertex_weights_elem: &XmlElement,
    mesh: &mut DaeMesh,
    joint_names: &Vec<String>,
    weights: &Vec<Scalar>,
    vertex_count: usize,
)
    ensures
        influence_models(final(mesh).bone_influences@) == resolved_influences(
            *vertex_weights_elem,
            influence_models(old(mesh).bone_influences@),
            texts(joint_names@),
            weights@,
            vertex_count,
        ),
        final(mesh).name == old(mesh).name,
        final(mesh).vertices == old(mesh).vertices,
        final(mesh).normals == old(mesh).normals,
        final(mesh).uvs == old(mesh).uvs,
        final(mesh).indices == old(mesh).indices,
        final(mesh).material_name == old(mesh).material_name,
{
    let vcounts = read_count_stream(vertex_weights_elem, "vcount");
    let v = read_count_stream(vertex_weights_elem, "v");
    if vcounts.len() != vertex_count {
        return ;
    }
    mesh.bone_influences = resolve_influences(&vcounts, &v, joint_names, weights);
}

/// Whether the id of a source marks it as the list of joint names.
pub open spec fn is_joint_source(id: Seq<char>) -> bool {
    contains_text(id, "joints"@) || contains_text(id, "Joint"@)
}

/// Whether the id of a source marks it as the list of weights.
pub open spec fn is_weight_source(id: Seq<char>) -> bool {
    !is_joint_source(id) && (contains_text(id, "weights"@) || contains_text(id, "Weight"@))
}

/// The names in the `<Name_array>` of a source.
pub open spec fn names_in(source: XmlElement) -> Option<Seq<Seq<char>>> {
    match source.child("Name_array"@) {
        Some(array) => match array.text() {
            Some(t) => Some(words(t.text@)),
            None => None,
        },
        None => None,
    }
}

/// The numbers in the `<float_array>` of a source, words that are no
/// numbers passed over.
pub open spec fn weights_in(source: XmlElement) -> Option<Seq<Scalar>> {
    match source.child("float_array"@) {
        Some(array) => match array.text() {
            Some(t) => Some(loose_scalars(t.scalars@)),
            None => None,
        },
        None => None,
    }
}

/// The joint names of a skin: those of the last of `sources` that is marked
/// as a list of joint names and holds names.
pub open spec fn skin_joint_names(sources: Seq<XmlElement>) -> Seq<Seq<char>>
    decreases sources.len(),
{
    if sources.len() == 0 {
        Seq::empty()
    } else {
        let before = skin_joint_names(sources.drop_last());
        match sources.last().attribute("id"@) {
            Some(id) => if is_joint_source(id@) {
                match names_in(sources.last()) {
                    Some(names) => names,
                    None => before,
                }
            } else {
                before
            },
            None => before,
        }
    }
}

/// The weights of a skin: those of the last of `sources` that is marked as a
/// list of weights and holds numbers.
pub open spec fn skin_weights(sources: Seq<XmlElement>) -> Seq<Scalar>
    decreases sources.len(),
{
    if sources.len() == 0 {
        Seq::empty()
    } else {
        let before = skin_weights(sources.drop_last());
        match sources.last().attribute("id"@) {
            Some(id) => if is_weight_source(id@) {
                match weights_in(sources.last()) {
                    Some(weights) => weights,
                    None => before,
                }
            } else {
                before
            },
            None => before,
        }
    }
}

/// The influences of a mesh after the `<skin>` element that targets it is
/// read: unchanged where the skin lacks joint names, weights, or a
/// `<vertex_weights>` element with a count that can be read.
pub open spec fn skinned_influences(skin: XmlElement, current: Seq<InfluenceModel>) -> Seq<
    InfluenceModel,
> {
    let sources = skin.children_named("source"@);
    let names = skin_joint_names(sources);
    let weights = skin_weights(sources);
    if names.len() == 0 || weights.len() == 0 {
        current
    } else {
        match skin.child("vertex_weights"@) {
            Some(vertex_weights) => match vertex_weights.attribute("count"@) {
                Some(count) => match usize_text(count@) {
                    Some(n) => resolved_influences(vertex_weights, current, names, weights, n),
                    None => current,
                },
                None => current,
            },
            None => current,
        }
    }
}

fn read_names_in(source: &XmlElement) -> (r: Option<Vec<String>>)
    ensures
        match r {
            Some(names) => names_in(*source) == Some(texts(names@)),
            None => names_in(*source) is None,
        },
{
    match find_child(source, "Name_array") {
        Some(array) => match get_element_text(array) {
            Some(t) => Some(split_text(t.text.as_str())),
            None => None,
        },
        None => None,
    }
}

fn read_weights_in(source: &XmlElement) -> (r: Option<Vec<Scalar>>)
    ensures
        match r {
            Some(weights) => weights_in(*source) == Some(weights@),
            None => weights_in(*source) is None,
        },
{
    match find_child(source, "float_array") {
        Some(array) => match get_element_text(array) {
            Some(t) => Some(read_scalars(t)),
            None => None,
        },
        None => None,
    }
}

/// Reads a `<skin>` element into the influences of `mesh`.
pub fn parse_skin_data_to_mesh(skin_elem: &XmlElement, mesh: &mut DaeMesh)
    ensures
        influence_models(final(mesh).bone_influences@) == skinned_influences(
            *skin_elem,
            influence_models(old(mesh).bone_influences@),
        ),
        final(mesh).name == old(mesh).name,
        final(mesh).vertices == old(mesh).vertices,
        final(mesh).normals == old(mesh).normals,
        final(mesh).uvs == old(mesh).uvs,
        final(mesh).indices == old(mesh).indices,
        final(mesh).material_name == old(mesh).material_name,
{
    let sources = find_all_children(skin_elem, "source");
    let ghost all = all_owned(sources@);
    let mut joint_names: Vec<String> = Vec::new();
    let mut weights: Vec<Scalar> = Vec::new();
    let n = sources.len();
    let mut i: usize = 0;
    proof {
        assert(all.take(0) =~= Seq::<XmlElement>::empty());
        assert(texts(joint_names@) =~= Seq::<Seq<char>>::empty());
    }
    while i < n
        invariant
            i <= n,
            n == sources@.len(),
            all == all_owned(sources@),
            texts(joint_names@) == skin_joint_names(all.take(i as int)),
            weights@ == skin_weights(all.take(i as int)),
        decreases n - i,
    {
        proof {
            assert(all.take(i + 1).drop_last() =~= all.take(i as int));
            assert(all.take(i + 1).last() == *sources@[i as int]);
        }
        match get_attribute(sources[i], "id") {
            Some(id) => {
                if text_contains(id.as_str(), "joints") || text_contains(id.as_str(), "Joint") {
                    match read_names_in(sources[i]) {
                        Some(names) => {
                            joint_names = names;
                        },
                        None => {},
                    }
                } else if text_contains(id.as_str(), "weights") || text_contains(
                    id.as_str(),
                    "Weight",
                ) {
                    match read_weights_in(sources[i]) {
                        Some(values) => {
                            weights = values;
                        },
                        None => {},
                    }
                }
            },
            None => {},
        }
        i += 1;
    }
    proof {
        assert(all.take(n as int) =~= all);
    }
    if joint_names.len() == 0 || weights.len() == 0 {
        return ;
    }
    match find_child(skin_elem, "vertex_weights") {
        Some(vertex_weights) => match get_attribute(vertex_weights, "count") {
            Some(count) => match read_usize(count.as_str()) {
                Some(vertex_count) => {
                    parse_vertex_weights_data(
                        vertex_weights,
                        mesh,
                        &joint_names,
                        &weights,
                        vertex_count,
                    );
                },
                None => {},
            },
            None => {},
        },
        None => {},
    }
}

} // verus!
