//! Joints and weights per vertex for glTF: of all the bones that move a
//! vertex the four with the greatest weights are kept.

use vstd::prelude::*;
use crate::records::{vertex_count, BoneData, BoneInfluence, MeshObjectData, SkelData, VertexWeight};
use crate::scalar::{one_bits, zero_bits, Scalar};
use crate::text::{text_eq, texts};

verus! {

/// How many bones can be joints: a joint is a 16-bit number.
pub open spec fn joint_limit() -> nat {
    65536
}

/// The four strongest influences of every vertex of a mesh object, for a
/// skeleton. Where the attributes of the object differ in length it counts
/// as having no vertex.
pub open spec fn object_influences(o: MeshObjectData, bones: Seq<BoneData>) -> Seq<Seq<JointWeight>> {
    Seq::new(
        match o.vertices() {
            Some(n) => n,
            None => 0,
        },
        |v: int| strongest(o.bone_influences@, names_of_bones(bones), joint_limit(), v as nat),
    )
}

/// Lists of influences as plain values.
pub open spec fn influence_lists(list: Seq<Vec<JointWeight>>) -> Seq<Seq<JointWeight>> {
    list.map_values(|l: Vec<JointWeight>| l@)
}

/// The four strongest influences of every vertex of a mesh object.
pub fn select_influences(object: &MeshObjectData, skel_data: &SkelData) -> (r: Vec<
    Vec<JointWeight>,
>)
    ensures
        influence_lists(r@) == object_influences(*object, skel_data.bones@),
{
    let vertices = match vertex_count(object) {
        Some(n) => n,
        None => 0,
    };
    let names = bone_names(&skel_data.bones);
    let selected = vertex_influences(&object.bone_influences, &names, 65536, vertices);
    proof {
        assert(influence_lists(selected@) =~= object_influences(*object, skel_data.bones@));
    }
    selected
}

/// What arithmetic on the weights of a vertex gives: the sum of the weights
/// of its strongest influences, and each of these weights divided by the
/// sum.
#[derive(Clone, Copy, Debug, PartialEq, Eq)]
pub struct VertexBlend {
    pub total: Scalar,
    pub shares: [Scalar; 4],
}

/// Whether a vertex is bound as its influences say: it has some, and their
/// weights sum to more than zero. Else it is bound to the first bone alone.
pub open spec fn bound_by_influences(selected: Seq<JointWeight>, blend: VertexBlend) -> bool {
    selected.len() > 0 && blend.total.is_positive()
}

/// The joint in slot `k` of a vertex, as a 16-bit number.
pub open spec fn slot_joint(selected: Seq<JointWeight>, blend: VertexBlend, k: int) -> u16 {
    if bound_by_influences(selected, blend) && k < selected.len() {
        selected[k].0 as u16
    } else {
        0
    }
}

/// The weight in slot `k` of a vertex.
pub open spec fn slot_weight(selected: Seq<JointWeight>, blend: VertexBlend, k: int) -> Scalar {
    if bound_by_influences(selected, blend) {
        if k < selected.len() {
            blend.shares[k]
        } else {
            Scalar { bits: zero_bits() }
        }
    } else if k == 0 {
        Scalar { bits: one_bits() }
    } else {
        Scalar { bits: zero_bits() }
    }
}

/// The four joints of a vertex.
pub open spec fn vertex_joints(selected: Seq<JointWeight>, blend: VertexBlend) -> [u16; 4] {
    [
        slot_joint(selected, blend, 0),
        slot_joint(selected, blend, 1),
        slot_joint(selected, blend, 2),
        slot_joint(selected, blend, 3),
    ]
}

/// The four weights of a vertex.
pub open spec fn vertex_weights(selected: Seq<JointWeight>, blend: VertexBlend) -> [Scalar; 4] {
    [
        slot_weight(selected, blend, 0),
        slot_weight(selected, blend, 1),
        slot_weight(selected, blend, 2),
        slot_weight(selected, blend, 3),
    ]
}

/// The joints and weights of the vertices of a mesh object, four of each
/// per vertex.
#[derive(Clone, Debug, PartialEq, Eq)]
pub struct SkinStreams {
    pub joints: Vec<[u16; 4]>,
    pub weights: Vec<[Scalar; 4]>,
}

/// Binds one vertex: to its strongest influences, at most four, by their
/// shares of the sum (a fifth influence and further ones count for
/// nothing); or, for want of influences or of a sum above zero, to
/// the first bone alone.
pub fn bind_vertex(selected: &Vec<JointWeight>, blend: &VertexBlend) -> (r: ([u16; 4], [Scalar; 4]))
    ensures
        r.0 == vertex_joints(selected@, *blend),
        r.1 == vertex_weights(selected@, *blend),
{
    let z = Scalar::zero();
    let mut joints: [u16; 4] = [0, 0, 0, 0];
    let mut weights: [Scalar; 4] = [Scalar::one(), z, z, z];
    if selected.len() > 0 && blend.total.positive() {
        let n = selected.len();
        joints =
        [
            #[verifier::truncate]
            (selected[0].0 as u16),
            if n > 1 {
                #[verifier::truncate]
                (selected[1].0 as u16)
            } else {
                0
            },
            if n > 2 {
                #[verifier::truncate]
                (selected[2].0 as u16)
            } else {
                0
            },
            if n > 3 {
                #[verifier::truncate]
                (selected[3].0 as u16)
            } else {
                0
            },
        ];
        weights =
        [
            blend.shares[0],
            if n > 1 {
                blend.shares[1]
            } else {
                z
            },
            if n > 2 {
                blend.shares[2]
            } else {
                z
            },
            if n > 3 {
                blend.shares[3]
            } else {
                z
            },
        ];
    }
    proof {
        assert(joints =~= vertex_joints(selected@, *blend));
        assert(weights =~= vertex_weights(selected@, *blend));
    }
    (joints, weights)
}

/// The joints and weights of all vertices, given for each vertex its
/// strongest influences and what arithmetic made of them; none where the
/// two lists differ in length.
pub fn skin_streams(selected: &Vec<Vec<JointWeight>>, blends: &[VertexBlend]) -> (r: Option<
    SkinStreams,
>)
    ensures
        r is Some <==> selected@.len() == blends@.len(),
        r is Some ==> {
            &&& r->0.joints@.len() == selected@.len()
            &&& r->0.weights@.len() == selected@.len()
            &&& forall|v: int|
                0 <= v < selected@.len() ==> {
                    &&& #[trigger] r->0.joints@[v] == vertex_joints(selected@[v]@, blends@[v])
                    &&& r->0.weights@[v] == vertex_weights(selected@[v]@, blends@[v])
                }
        },
{
    let n = selected.len();
    if blends.len() != n {
        return None;
    }
    let mut joints: Vec<[u16; 4]> = Vec::new();
    let mut weights: Vec<[Scalar; 4]> = Vec::new();
    let mut v: usize = 0;
    while v < n
        invariant
            v <= n,
            n == selected@.len(),
            n == blends@.len(),
            joints@.len() == v,
            weights@.len() == v,
            forall|k: int|
                0 <= k < v ==> {
                    &&& #[trigger] joints@[k] == vertex_joints(selected@[k]@, blends@[k])
                    &&& weights@[k] == vertex_weights(selected@[k]@, blends@[k])
                },
        decreases n - v,
    {
        let bound = bind_vertex(&selected[v], &blends[v]);
        joints.push(bound.0);
        weights.push(bound.1);
        v += 1;
    }
    Some(SkinStreams { joints, weights })
}

/// The joints and weights of the vertices of a mesh object as plain
/// values.
pub struct SkinModel {
    pub joints: Seq<[u16; 4]>,
    pub weights: Seq<[Scalar; 4]>,
}

impl SkinStreams {
    /// The streams as plain values.
    pub open spec fn model(self) -> SkinModel {
        SkinModel { joints: self.joints@, weights: self.weights@ }
    }
}

/// The joints and weights of a mesh object for a skeleton: every vertex is
/// bound to its four strongest influences, strongest first, by the shares
/// that `blends` gives for it, or for want of a usable influence to the
/// first bone alone.
pub open spec fn bound_skin(
    o: MeshObjectData,
    bones: Seq<BoneData>,
    blends: Seq<VertexBlend>,
) -> SkinModel {
    let selected = object_influences(o, bones);
    SkinModel {
        joints: Seq::new(selected.len(), |v: int| vertex_joints(selected[v], blends[v])),
        weights: Seq::new(selected.len(), |v: int| vertex_weights(selected[v], blends[v])),
    }
}

/// Whether there is one blend for every vertex of a mesh object.
pub open spec fn blends_fit(o: MeshObjectData, bones: Seq<BoneData>, blends: Seq<VertexBlend>) -> bool {
    blends.len() == object_influences(o, bones).len()
}

/// The joints and weights of a mesh object for a skeleton, if there is one
/// blend for every vertex.
pub fn bind_object(object: &MeshObjectData, skel_data: &SkelData, blends: &[VertexBlend]) -> (r:
    Option<SkinStreams>)
    ensures
        r is Some <==> blends_fit(*object, skel_data.bones@, blends@),
        r is Some ==> r->0.model() == bound_skin(*object, skel_data.bones@, blends@),
{
    let selected = select_influences(object, skel_data);
    let ghost lists = object_influences(*object, skel_data.bones@);
    proof {
        assert(lists.len() == selected@.len());
    }
    match skin_streams(&selected, blends) {
        Some(streams) => {
            proof {
                let want = bound_skin(*object, skel_data.bones@, blends@);
                assert forall|v: int| 0 <= v < selected@.len() implies streams.joints@[v]
                    == want.joints[v] && streams.weights@[v] == want.weights[v] by {
                    assert(influence_lists(selected@)[v] == selected@[v]@);
                }
                assert(streams.joints@ =~= want.joints);
                assert(streams.weights@ =~= want.weights);
            }
            Some(streams)
        },
        None => None,
    }
}

/// A joint, by the position of its bone, with the weight by which it moves
/// a vertex.
pub type JointWeight = (usize, Scalar);

/// The joint that stands for the bone `name`: the position of the last bone
/// of that name among the first `limit` bones.
pub open spec fn joint_of(names: Seq<Seq<char>>, name: Seq<char>, limit: nat) -> Option<usize>
    decreases names.len(),
{
    if names.len() == 0 {
        None
    } else if names.len() - 1 < limit && names.last() == name {
        Some((names.len() - 1) as usize)
    } else {
        joint_of(names.drop_last(), name, limit)
    }
}

/// The names of a list of bones.
pub open spec fn names_of_bones(bones: Seq<BoneData>) -> Seq<Seq<char>> {
    bones.map_values(|b: BoneData| b.name@)
}

/// The names of a list of bones.
pub fn bone_names(bones: &Vec<BoneData>) -> (r: Vec<String>)
    ensures
        texts(r@) == names_of_bones(bones@),
{
    let mut out: Vec<String> = Vec::new();
    let n = bones.len();
    let mut i: usize = 0;
    while i < n
        invariant
            i <= n,
            n == bones@.len(),
            out@.len() == i,
            forall|k: int| 0 <= k < i ==> out@[k]@ == bones@[k].name@,
        decreases n - i,
    {
        out.push(bones[i].name.clone());
        i += 1;
    }
    proof {
        assert(texts(out@) =~= names_of_bones(bones@));
    }
    out
}

/// Of `weights`, those of the vertex `v`, each with the joint `joint`.
pub open spec fn weights_of_vertex(weights: Seq<VertexWeight>, joint: usize, v: nat) -> Seq<
    JointWeight,
>
    decreases weights.len(),
{
    if weights.len() == 0 {
        Seq::empty()
    } else {
        let before = weights_of_vertex(weights.drop_last(), joint, v);
        if weights.last().vertex_index as nat == v {
            before.push((joint, weights.last().vertex_weight))
        } else {
            before
        }
    }
}

/// The joints that move the vertex `v`, with their weights: influence by
/// influence, weight by weight. An influence of a bone that the skeleton
/// does not have counts for nothing.
pub open spec fn influences_of_vertex(
    influences: Seq<BoneInfluence>,
    names: Seq<Seq<char>>,
    limit: nat,
    v: nat,
) -> Seq<JointWeight>
    decreases influences.len(),
{
    if influences.len() == 0 {
        Seq::empty()
    } else {
        let before = influences_of_vertex(influences.drop_last(), names, limit, v);
        match joint_of(names, influences.last().bone_name@, limit) {
            Some(joint) => before + weights_of_vertex(influences.last().vertex_weights@, joint, v),
            None => before,
        }
    }
}

/// The place of a new weight in a list that descends by weight: before the
/// first entry with a smaller weight, behind all others.
pub open spec fn place_of(list: Seq<JointWeight>, w: Scalar) -> nat
    decreases list.len(),
{
    if list.len() == 0 || list[0].1.less_than(w) {
        0
    } else {
        1 + place_of(list.drop_first(), w)
    }
}

/// The entries of `list` by descending weight; entries of equal weight keep
/// their order.
pub open spec fn ranked(list: Seq<JointWeight>) -> Seq<JointWeight>
    decreases list.len(),
{
    if list.len() == 0 {
        Seq::empty()
    } else {
        let before = ranked(list.drop_last());
        before.insert(place_of(before, list.last().1) as int, list.last())
    }
}

/// The first four entries of a list, or all of a shorter one.
pub open spec fn first_four(list: Seq<JointWeight>) -> Seq<JointWeight> {
    if list.len() > 4 {
        list.take(4)
    } else {
        list
    }
}

/// The four strongest influences of the vertex `v`, strongest first.
pub open spec fn strongest(
    influences: Seq<BoneInfluence>,
    names: Seq<Seq<char>>,
    limit: nat,
    v: nat,
) -> Seq<JointWeight> {
    first_four(ranked(influences_of_vertex(influences, names, limit, v)))
}

/// The place of a new weight is behind all entries that are not smaller,
/// and before one that is.
pub proof fn lemma_place_of(list: Seq<JointWeight>, w: Scalar)
    ensures
        place_of(list, w) <= list.len(),
        forall|k: int| 0 <= k < place_of(list, w) ==> !(#[trigger] list[k]).1.less_than(w),
        place_of(list, w) < list.len() ==> list[place_of(list, w) as int].1.less_than(w),
    decreases list.len(),
{
    if list.len() == 0 || list[0].1.less_than(w) {
    } else {
        let rest = list.drop_first();
        lemma_place_of(rest, w);
        assert forall|k: int| 0 <= k < place_of(list, w) implies !(#[trigger] list[k]).1.less_than(
            w,
        ) by {
            if k > 0 {
                assert(list[k] == rest[k - 1]);
            }
        }
        if place_of(list, w) < list.len() {
            assert(list[place_of(list, w) as int] == rest[place_of(rest, w) as int]);
        }
    }
}

/// Ranking keeps the number of entries.
pub proof fn lemma_ranked_len(list: Seq<JointWeight>)
    ensures
        ranked(list).len() == list.len(),
    decreases list.len(),
{
    if list.len() > 0 {
        lemma_ranked_len(list.drop_last());
        lemma_place_of(ranked(list.drop_last()), list.last().1);
    }
}

/// No weight is a NaN.
pub open spec fn all_numbers(list: Seq<JointWeight>) -> bool {
    forall|k: int| 0 <= k < list.len() ==> !(#[trigger] list[k]).1.is_nan()
}

/// No entry has a smaller weight than a later one.
pub open spec fn descending(list: Seq<JointWeight>) -> bool {
    forall|i: int, j: int| 0 <= i < j < list.len() ==> !list[i].1.less_than(list[j].1)
}

/// Where no weight is a NaN, the ranked entries descend by weight.
pub proof fn lemma_ranked_descending(list: Seq<JointWeight>)
    requires
        all_numbers(list),
    ensures
        descending(ranked(list)),
        all_numbers(ranked(list)),
    decreases list.len(),
{
    if list.len() > 0 {
        let front = list.drop_last();
        assert(all_numbers(front)) by {
            assert forall|k: int| 0 <= k < front.len() implies !(#[trigger] front[k]).1.is_nan() by {
                assert(front[k] == list[k]);
            }
        }
        lemma_ranked_descending(front);
        let before = ranked(front);
        let e = list.last();
        assert(!list[list.len() - 1].1.is_nan());
        lemma_place_of(before, e.1);
        let p = place_of(before, e.1) as int;
        let r = before.insert(p, e);
        assert forall|k: int| 0 <= k < r.len() implies !(#[trigger] r[k]).1.is_nan() by {
            if k < p {
                assert(r[k] == before[k]);
            } else if k > p {
                assert(r[k] == before[k - 1]);
            }
        }
        assert forall|i: int, j: int| 0 <= i < j < r.len() implies !r[i].1.less_than(r[j].1) by {
            if j < p {
                assert(r[i] == before[i] && r[j] == before[j]);
            } else if j == p {
                assert(r[i] == before[i]);
            } else if i == p {
                assert(r[j] == before[j - 1]);
                assert(before[p].1.less_than(e.1));
                assert(!before[j - 1].1.is_nan());
                if j - 1 > p {
                    assert(!before[p].1.less_than(before[j - 1].1));
                }
            } else if i < p {
                assert(r[i] == before[i] && r[j] == before[j - 1]);
            } else {
                assert(r[i] == before[i - 1] && r[j] == before[j - 1]);
            }
        }
    }
}

/// Of influences whose weights are numbers the strongest four are kept:
/// at most four, by descending weight, and none that is left out is
/// stronger than one that is kept.
pub proof fn lemma_first_four_strongest(list: Seq<JointWeight>)
    requires
        all_numbers(list),
    ensures
        first_four(ranked(list)).len() == (if list.len() > 4 {
            4
        } else {
            list.len()
        }),
        descending(first_four(ranked(list))),
        forall|i: int, j: int|
            #![trigger first_four(ranked(list))[i], ranked(list)[j]]
            0 <= i < first_four(ranked(list)).len() <= j < list.len() ==> !first_four(
                ranked(list),
            )[i].1.less_than(ranked(list)[j].1),
{
    lemma_ranked_len(list);
    lemma_ranked_descending(list);
    let all = ranked(list);
    let kept = first_four(all);
    assert forall|i: int| 0 <= i < kept.len() implies kept[i] == all[i] by {}
}

/// Ranking changes the order of the entries and nothing else.
pub proof fn lemma_ranked_same_entries(list: Seq<JointWeight>)
    ensures
        ranked(list).to_multiset() == list.to_multiset(),
    decreases list.len(),
{
    if list.len() > 0 {
        let front = list.drop_last();
        lemma_ranked_same_entries(front);
        lemma_place_of(ranked(front), list.last().1);
        vstd::seq_lib::to_multiset_insert(
            ranked(front),
            place_of(ranked(front), list.last().1) as int,
            list.last(),
        );
        vstd::seq_lib::to_multiset_build(front, list.last());
        assert(front.push(list.last()) =~= list);
    } else {
        assert(ranked(list) =~= list);
    }
}

/// The joint that stands for the bone `name`.
pub fn find_joint(names: &Vec<String>, name: &str, limit: usize) -> (r: Option<usize>)
    ensures
        r == joint_of(texts(names@), name@, limit as nat),
{
    let ghost all = texts(names@);
    let mut i: usize = names.len();
    proof {
        assert(all.take(i as int) =~= all);
    }
    while i > 0
        invariant
            i <= names@.len(),
            all == texts(names@),
            joint_of(all, name@, limit as nat) == joint_of(all.take(i as int), name@, limit as nat),
        decreases i,
    {
        proof {
            assert(all.take(i as int).drop_last() =~= all.take(i - 1));
            assert(all.take(i as int).last() == names@[i - 1]@);
        }
        if i - 1 < limit && text_eq(names[i - 1].as_str(), name) {
            return Some(i - 1);
        }
        i -= 1;
    }
    None
}

/// The entries of `list` by descending weight.
pub fn rank(list: &Vec<JointWeight>) -> (r: Vec<JointWeight>)
    ensures
        r@ == ranked(list@),
{
    let mut out: Vec<JointWeight> = Vec::new();
    let n = list.len();
    let mut i: usize = 0;
    proof {
        assert(list@.take(0) =~= Seq::<JointWeight>::empty());
    }
    while i < n
        invariant
            i <= n,
            n == list@.len(),
            out@ == ranked(list@.take(i as int)),
        decreases n - i,
    {
        proof {
            assert(list@.take(i + 1).drop_last() =~= list@.take(i as int));
            assert(list@.take(i + 1).last() == list@[i as int]);
        }
        let e = list[i];
        let m = out.len();
        let mut p: usize = 0;
        proof {
            assert(out@.skip(0) =~= out@);
        }
        while p < m && !out[p].1.lt(e.1)
            invariant
                p <= m,
                m == out@.len(),
                place_of(out@, e.1) == p + place_of(out@.skip(p as int), e.1),
            decreases m - p,
        {
            proof {
                assert(out@.skip(p as int).drop_first() =~= out@.skip(p + 1));
                assert(out@.skip(p as int)[0] == out@[p as int]);
            }
            p += 1;
        }
        proof {
            if p < m {
                assert(out@.skip(p as int)[0] == out@[p as int]);
            }
        }
        out.insert(p, e);
        i += 1;
    }
    proof {
        assert(list@.take(n as int) =~= list@);
    }
    out
}

/// For each of `vertex_count` vertices its four strongest influences,
/// strongest first.
pub fn vertex_influences(
    influences: &Vec<BoneInfluence>,
    names: &Vec<String>,
    limit: usize,
    vertex_count: usize,
) -> (r: Vec<Vec<JointWeight>>)
    ensures
        r@.len() == vertex_count,
        forall|v: int|
            0 <= v < vertex_count ==> (#[trigger] r@[v])@ == strongest(
                influences@,
                texts(names@),
                limit as nat,
                v as nat,
            ),
{
    let ghost bones = texts(names@);
    let mut lists: Vec<Vec<JointWeight>> = Vec::new();
    let mut v: usize = 0;
    while v < vertex_count
        invariant
            v <= vertex_count,
            lists@.len() == v,
            forall|k: int| 0 <= k < v ==> (#[trigger] lists@[k])@ == Seq::<JointWeight>::empty(),
        decreases vertex_count - v,
    {
        lists.push(Vec::new());
        v += 1;
    }
    let n = influences.len();
    let mut i: usize = 0;
    proof {
        assert(influences@.take(0) =~= Seq::<BoneInfluence>::empty());
    }
    while i < n
        invariant
            i <= n,
            n == influences@.len(),
            lists@.len() == vertex_count,
            bones == texts(names@),
            forall|k: int|
                0 <= k < vertex_count ==> (#[trigger] lists@[k])@ == influences_of_vertex(
                    influences@.take(i as int),
                    bones,
                    limit as nat,
                    k as nat,
                ),
        decreases n - i,
    {
        proof {
            assert(influences@.take(i + 1).drop_last() =~= influences@.take(i as int));
            assert(influences@.take(i + 1).last() == influences@[i as int]);
        }
        match find_joint(names, influences[i].bone_name.as_str(), limit) {
            Some(joint) => {
                let weights = &influences[i].vertex_weights;
                let ghost start = lists@;
                let m = weights.len();
                let mut k: usize = 0;
                proof {
                    assert(weights@.take(0) =~= Seq::<VertexWeight>::empty());
                    assert forall|x: int| 0 <= x < vertex_count implies (#[trigger] lists@[x])@
                        == start[x]@ + weights_of_vertex(weights@.take(0), joint, x as nat) by {}
                }
                while k < m
                    invariant
                        k <= m,
                        m == weights@.len(),
                        lists@.len() == vertex_count,
                        start.len() == vertex_count,
                        forall|x: int|
                            0 <= x < vertex_count ==> (#[trigger] lists@[x])@ == start[x]@
                                + weights_of_vertex(weights@.take(k as int), joint, x as nat),
                    decreases m - k,
                {
                    proof {
                        assert(weights@.take(k + 1).drop_last() =~= weights@.take(k as int));
                        assert(weights@.take(k + 1).last() == weights@[k as int]);
                    }
                    let target = weights[k].vertex_index as usize;
                    let ghost prev = lists@;
                    if target < vertex_count {
                        lists[target].push((joint, weights[k].vertex_weight));
                    }
                    proof {
                        assert forall|x: int| 0 <= x < vertex_count implies (#[trigger] lists@[x])@
                            == start[x]@ + weights_of_vertex(
                            weights@.take(k + 1),
                            joint,
                            x as nat,
                        ) by {
                            if x == target {
                                assert(lists@[x]@ == prev[x]@.push((joint, weights@[k as int].vertex_weight)));
                                assert(lists@[x]@ =~= start[x]@ + weights_of_vertex(
                                    weights@.take(k + 1),
                                    joint,
                                    x as nat,
                                ));
                            } else {
                                assert(lists@[x] == prev[x]);
                            }
                        }
                    }
                    k += 1;
                }
                proof {
                    assert(weights@.take(m as int) =~= weights@);
                }
            },
            None => {},
        }
        i += 1;
    }
    proof {
        assert(influences@.take(n as int) =~= influences@);
    }
    let mut out: Vec<Vec<JointWeight>> = Vec::new();
    let mut v: usize = 0;
    while v < vertex_count
        invariant
            v <= vertex_count,
            lists@.len() == vertex_count,
            out@.len() == v,
            bones == texts(names@),
            forall|k: int|
                0 <= k < vertex_count ==> (#[trigger] lists@[k])@ == influences_of_vertex(
                    influences@,
                    bones,
                    limit as nat,
                    k as nat,
                ),
            forall|k: int|
                0 <= k < v ==> (#[trigger] out@[k])@ == strongest(
                    influences@,
                    bones,
                    limit as nat,
                    k as nat,
                ),
        decreases vertex_count - v,
    {
        let mut best = rank(&lists[v]);
        if best.len() > 4 {
            best.truncate(4);
        }
        out.push(best);
        v += 1;
    }
    out
}

} // verus!
