//! The order in which the world transforms of bones are to be computed:
//! every bone once, after its parent.

use vstd::prelude::*;
use crate::lists::optional_view;
use crate::records::BoneData;

verus! {

/// The order after the bone `i` is placed: a bone that is placed stays
/// where it is; another goes to the end, after its parent and the bones
/// above that have been placed in the same way. There is no order where a
/// parent is no bone, or where the way up takes more than `fuel` bones.
pub open spec fn placed_with(bones: Seq<BoneData>, order: Seq<usize>, i: usize, fuel: nat) -> Option<
    Seq<usize>,
>
    decreases fuel,
{
    if i >= bones.len() {
        None
    } else if order.contains(i) {
        Some(order)
    } else if fuel == 0 {
        None
    } else {
        match bones[i as int].parent_index {
            None => Some(order.push(i)),
            Some(p) => match placed_with(bones, order, p, (fuel - 1) as nat) {
                Some(above) => Some(above.push(i)),
                None => None,
            },
        }
    }
}

/// The order after the first `upto` bones are placed, one after the other.
pub open spec fn order_upto(bones: Seq<BoneData>, upto: nat) -> Option<Seq<usize>>
    decreases upto,
{
    if upto == 0 {
        Some(Seq::empty())
    } else {
        match order_upto(bones, (upto - 1) as nat) {
            Some(before) => placed_with(bones, before, (upto - 1) as usize, bones.len()),
            None => None,
        }
    }
}

/// The order in which to compute the world transforms of a skeleton, if its
/// hierarchy is sound.
pub open spec fn bind_order(bones: Seq<BoneData>) -> Option<Seq<usize>> {
    order_upto(bones, bones.len())
}

/// In `order` every entry is a bone and stands after its parent, and no
/// bone stands twice.
pub open spec fn parents_first(bones: Seq<BoneData>, order: Seq<usize>) -> bool {
    &&& forall|k: int| 0 <= k < order.len() ==> #[trigger] order[k] < bones.len()
    &&& forall|j: int, k: int| 0 <= j < k < order.len() ==> order[j] != order[k]
    &&& forall|k: int|
        0 <= k < order.len() ==> match bones[(#[trigger] order[k]) as int].parent_index {
            Some(p) => exists|j: int| 0 <= j < k && order[j] == p,
            None => true,
        }
}

/// Placing a bone keeps what is placed, in place, adds the bone, and keeps
/// parents first.
pub proof fn lemma_placed_with(bones: Seq<BoneData>, order: Seq<usize>, i: usize, fuel: nat)
    requires
        parents_first(bones, order),
        placed_with(bones, order, i, fuel) is Some,
    ensures
        parents_first(bones, placed_with(bones, order, i, fuel)->0),
        placed_with(bones, order, i, fuel)->0.contains(i),
        order.len() <= placed_with(bones, order, i, fuel)->0.len(),
        forall|k: int| 0 <= k < order.len() ==> placed_with(bones, order, i, fuel)->0[k] == order[k],
    decreases fuel,
{
    if order.contains(i) {
    } else {
        match bones[i as int].parent_index {
            None => {
                let r = order.push(i);
                assert(r[order.len() as int] == i);
                assert forall|j: int, k: int| 0 <= j < k < r.len() implies r[j] != r[k] by {
                    if k == order.len() {
                        assert(order[j] == r[j]);
                    }
                }
                assert forall|k: int| 0 <= k < r.len() implies match bones[(#[trigger] r[k]) as int].parent_index {
                    Some(p) => exists|j: int| 0 <= j < k && r[j] == p,
                    None => true,
                } by {
                    if k < order.len() {
                        assert(r[k] == order[k]);
                        match bones[order[k] as int].parent_index {
                            Some(p) => {
                                let j = choose|j: int| 0 <= j < k && order[j] == p;
                                assert(r[j] == p);
                            },
                            None => {},
                        }
                    }
                }
            },
            Some(p) => {
                lemma_placed_with(bones, order, p, (fuel - 1) as nat);
                let above = placed_with(bones, order, p, (fuel - 1) as nat)->0;
                lemma_not_placed_above(bones, order, p, (fuel - 1) as nat, i);
                let r = above.push(i);
                assert(r[above.len() as int] == i);
                assert forall|j: int, k: int| 0 <= j < k < r.len() implies r[j] != r[k] by {
                    if k == above.len() {
                        assert(above[j] == r[j]);
                    }
                }
                let at = choose|at: int| 0 <= at < above.len() && above[at] == p;
                assert forall|k: int| 0 <= k < r.len() implies match bones[(#[trigger] r[k]) as int].parent_index {
                    Some(q) => exists|j: int| 0 <= j < k && r[j] == q,
                    None => true,
                } by {
                    if k < above.len() {
                        assert(r[k] == above[k]);
                        match bones[above[k] as int].parent_index {
                            Some(q) => {
                                let j = choose|j: int| 0 <= j < k && above[j] == q;
                                assert(r[j] == q);
                            },
                            None => {},
                        }
                    } else {
                        assert(r[at] == p);
                    }
                }
            },
        }
    }
}

/// A bone that is not placed, and whose way up does not lead through `i`
/// back to itself, is not placed by placing a bone above it: placing `p`
/// with too little fuel to pass `i` leaves `i` out.
proof fn lemma_not_placed_above(bones: Seq<BoneData>, order: Seq<usize>, p: usize, fuel: nat, i: usize)
    requires
        !order.contains(i),
        placed_with(bones, order, p, fuel) is Some,
        placed_with(bones, order, i, fuel + 1) is Some,
        i < bones.len(),
        bones[i as int].parent_index == Some(p),
    ensures
        !placed_with(bones, order, p, fuel)->0.contains(i),
{
    lemma_way_up_placed(bones, order, i, fuel + 1);
    lemma_way_up_placed(bones, order, p, fuel);
    lemma_way_up(bones, order, p, fuel, i, fuel);
}

/// How many bones the way up from `i` passes until it meets a placed bone
/// or a root, if it does so within `fuel` bones.
pub open spec fn way_up(bones: Seq<BoneData>, order: Seq<usize>, i: usize, fuel: nat) -> Option<nat>
    decreases fuel,
{
    if i >= bones.len() {
        None
    } else if order.contains(i) {
        Some(0)
    } else if fuel == 0 {
        None
    } else {
        match bones[i as int].parent_index {
            None => Some(1),
            Some(p) => match way_up(bones, order, p, (fuel - 1) as nat) {
                Some(n) => Some(n + 1),
                None => None,
            },
        }
    }
}

/// Placing succeeds exactly where the way up ends in time; it adds as many
/// bones as the way up passes; and the length of the way does not depend on
/// the fuel that was enough.
proof fn lemma_way_up_placed(bones: Seq<BoneData>, order: Seq<usize>, i: usize, fuel: nat)
    ensures
        placed_with(bones, order, i, fuel) is Some <==> way_up(bones, order, i, fuel) is Some,
        placed_with(bones, order, i, fuel) is Some ==> placed_with(bones, order, i, fuel)->0.len()
            == order.len() + way_up(bones, order, i, fuel)->0,
        way_up(bones, order, i, fuel) is Some ==> way_up(bones, order, i, fuel)->0 <= fuel,
    decreases fuel,
{
    if i >= bones.len() || order.contains(i) || fuel == 0 {
    } else {
        match bones[i as int].parent_index {
            None => {},
            Some(p) => {
                lemma_way_up_placed(bones, order, p, (fuel - 1) as nat);
            },
        }
    }
}

proof fn lemma_way_up_fuel(bones: Seq<BoneData>, order: Seq<usize>, i: usize, a: nat, b: nat)
    requires
        way_up(bones, order, i, a) is Some,
        way_up(bones, order, i, b) is Some,
    ensures
        way_up(bones, order, i, a) == way_up(bones, order, i, b),
    decreases a,
{
    if i >= bones.len() || order.contains(i) {
    } else {
        match bones[i as int].parent_index {
            None => {},
            Some(p) => {
                lemma_way_up_fuel(bones, order, p, (a - 1) as nat, (b - 1) as nat);
            },
        }
    }
}

/// The bones that placing `p` adds do not include a bone `i` whose own way
/// up, through a parent chain that leads to `p`, has been measured: the way
/// up from `i` is longer than that from any bone above it.
proof fn lemma_way_up(
    bones: Seq<BoneData>,
    order: Seq<usize>,
    p: usize,
    fuel: nat,
    i: usize,
    top: nat,
)
    requires
        !order.contains(i),
        i < bones.len(),
        placed_with(bones, order, p, fuel) is Some,
        way_up(bones, order, i, top + 1) is Some,
        way_up(bones, order, p, fuel) is Some ==> way_up(bones, order, p, fuel)->0 < way_up(
            bones,
            order,
            i,
            top + 1,
        )->0,
        placed_with(bones, order, i, top + 1) is Some,
    ensures
        !placed_with(bones, order, p, fuel)->0.contains(i),
    decreases fuel,
{
    lemma_way_up_placed(bones, order, p, fuel);
    lemma_way_up_placed(bones, order, i, top + 1);
    if order.contains(p) {
    } else {
        match bones[p as int].parent_index {
            None => {
                let r = order.push(p);
                if r.contains(i) {
                    let k = choose|k: int| 0 <= k < r.len() && r[k] == i;
                    if k < order.len() {
                        assert(order[k] == i);
                    } else {
                        assert(p == i);
                        lemma_way_up_fuel(bones, order, i, fuel, top + 1);
                    }
                }
            },
            Some(q) => {
                lemma_way_up_placed(bones, order, q, (fuel - 1) as nat);
                lemma_way_up(bones, order, q, (fuel - 1) as nat, i, top);
                let above = placed_with(bones, order, q, (fuel - 1) as nat)->0;
                let r = above.push(p);
                if r.contains(i) {
                    let k = choose|k: int| 0 <= k < r.len() && r[k] == i;
                    if k < above.len() {
                        assert(above[k] == i);
                    } else {
                        assert(p == i);
                        lemma_way_up_fuel(bones, order, i, fuel, top + 1);
                    }
                }
            },
        }
    }
}

/// The order of the first `upto` bones keeps parents first and holds each
/// of these bones.
pub proof fn lemma_order_upto(bones: Seq<BoneData>, upto: nat)
    requires
        upto <= bones.len() <= usize::MAX,
        order_upto(bones, upto) is Some,
    ensures
        parents_first(bones, order_upto(bones, upto)->0),
        forall|b: usize| b < upto ==> order_upto(bones, upto)->0.contains(b),
    decreases upto,
{
    if upto > 0 {
        lemma_order_upto(bones, (upto - 1) as nat);
        let before = order_upto(bones, (upto - 1) as nat)->0;
        let last = (upto - 1) as usize;
        lemma_placed_with(bones, before, last, bones.len());
        let r = order_upto(bones, upto)->0;
        assert forall|b: usize| b < upto implies r.contains(b) by {
            if b < upto - 1 {
                assert(before.contains(b));
                let k = choose|k: int| 0 <= k < before.len() && before[k] == b;
                assert(r[k] == b);
            } else {
                assert(b == last);
            }
        }
    }
}

/// The order in which to compute world transforms holds every bone once,
/// each after its parent.
pub proof fn lemma_bind_order(bones: Seq<BoneData>)
    requires
        bones.len() <= usize::MAX,
        bind_order(bones) is Some,
    ensures
        parents_first(bones, bind_order(bones)->0),
        forall|b: usize| b < bones.len() ==> bind_order(bones)->0.contains(b),
{
    lemma_order_upto(bones, bones.len());
}

/// What is placed, bone by bone.
pub open spec fn marks_placed(placed: Seq<bool>, order: Seq<usize>) -> bool {
    forall|b: usize| b < placed.len() ==> (#[trigger] placed[b as int] <==> order.contains(b))
}

fn place(
    bones: &Vec<BoneData>,
    placed: &mut Vec<bool>,
    order: &mut Vec<usize>,
    i: usize,
    fuel: usize,
) -> (r: bool)
    requires
        old(placed)@.len() == bones@.len(),
        marks_placed(old(placed)@, old(order)@),
    ensures
        r == (placed_with(bones@, old(order)@, i, fuel as nat) is Some),
        r ==> final(order)@ == placed_with(bones@, old(order)@, i, fuel as nat)->0,
        final(placed)@.len() == bones@.len(),
        r ==> marks_placed(final(placed)@, final(order)@),
    decreases fuel,
{
    if i >= bones.len() {
        return false;
    }
    if placed[i] {
        return true;
    }
    if fuel == 0 {
        return false;
    }
    match bones[i].parent_index {
        Some(p) => {
            if !place(bones, placed, order, p, fuel - 1) {
                return false;
            }
        },
        None => {},
    }
    let ghost before = order@;
    let ghost marks = placed@;
    order.push(i);
    placed.set(i, true);
    proof {
        assert forall|b: usize| b < placed@.len() implies (#[trigger] placed@[b as int]
            <==> order@.contains(b)) by {
            if b == i {
                assert(order@[before.len() as int] == i);
            } else {
                assert(placed@[b as int] == marks[b as int]);
                if before.contains(b) {
                    let k = choose|k: int| 0 <= k < before.len() && before[k] == b;
                    assert(order@[k] == b);
                }
                if order@.contains(b) {
                    let k = choose|k: int| 0 <= k < order@.len() && order@[k] == b;
                    assert(before[k] == b);
                }
            }
        }
    }
    true
}

/// The order in which to compute the world transforms of a skeleton: every
/// bone once, each after its parent. There is none where a parent is no
/// bone of the skeleton or the parents run in a circle.
pub fn bind_pose_order(bones: &Vec<BoneData>) -> (r: Option<Vec<usize>>)
    ensures
        optional_view(r) == bind_order(bones@),
        r is Some <==> sound(bones@),
        r is Some ==> parents_first(bones@, r->0@),
        r is Some ==> forall|b: usize| b < bones@.len() ==> r->0@.contains(b),
{
    let n = bones.len();
    proof {
        lemma_bind_order_sound(bones@);
    }
    let mut placed: Vec<bool> = Vec::new();
    let mut k: usize = 0;
    while k < n
        invariant
            k <= n,
            placed@.len() == k,
            forall|b: int| 0 <= b < k ==> !#[trigger] placed@[b],
        decreases n - k,
    {
        placed.push(false);
        k += 1;
    }
    let mut order: Vec<usize> = Vec::new();
    let mut i: usize = 0;
    while i < n
        invariant
            i <= n,
            n == bones@.len(),
            placed@.len() == n,
            marks_placed(placed@, order@),
            bind_order(bones@) is Some <==> sound(bones@),
            order_upto(bones@, i as nat) == Some(order@),
        decreases n - i,
    {
        if !place(bones, &mut placed, &mut order, i, n) {
            proof {
                lemma_order_none(bones@, (i + 1) as nat, n as nat);
            }
            return None;
        }
        i += 1;
    }
    proof {
        lemma_bind_order(bones@);
    }
    Some(order)
}

/// Once no order is found for some bones there is none for more.
proof fn lemma_order_none(bones: Seq<BoneData>, a: nat, b: nat)
    requires
        a <= b,
        order_upto(bones, a) is None,
    ensures
        order_upto(bones, b) is None,
    decreases b - a,
{
    if a < b {
        lemma_order_none(bones, a, (b - 1) as nat);
    }
}

/// Whether the way up from the bone `i` ends at a root after at most
/// `steps` bones, all of them bones of the skeleton.
pub open spec fn rooted(bones: Seq<BoneData>, i: usize, steps: nat) -> bool
    decreases steps,
{
    i < bones.len() && steps > 0 && match bones[i as int].parent_index {
        None => true,
        Some(p) => rooted(bones, p, (steps - 1) as nat),
    }
}

/// Whether the way up from the bone `i` ends at a root.
pub open spec fn reaches_root(bones: Seq<BoneData>, i: usize) -> bool {
    exists|steps: nat| rooted(bones, i, steps)
}

/// A sound hierarchy: from every bone the way up ends at a root.
pub open spec fn sound(bones: Seq<BoneData>) -> bool {
    forall|i: usize| i < bones.len() ==> #[trigger] reaches_root(bones, i)
}

proof fn lemma_rooted_more(bones: Seq<BoneData>, i: usize, a: nat, b: nat)
    requires
        rooted(bones, i, a),
        a <= b,
    ensures
        rooted(bones, i, b),
    decreases a,
{
    match bones[i as int].parent_index {
        None => {},
        Some(p) => {
            lemma_rooted_more(bones, p, (a - 1) as nat, (b - 1) as nat);
        },
    }
}

/// With nothing placed, the way up is measured exactly where it ends at a
/// root.
proof fn lemma_rooted_way_up(bones: Seq<BoneData>, i: usize, steps: nat)
    ensures
        rooted(bones, i, steps) <==> way_up(bones, Seq::empty(), i, steps) is Some,
    decreases steps,
{
    if i < bones.len() && steps > 0 {
        match bones[i as int].parent_index {
            None => {},
            Some(p) => {
                lemma_rooted_way_up(bones, p, (steps - 1) as nat);
            },
        }
    }
}

/// The bones on the way up from `i`, `i` first, as far as the way is long.
spec fn chain(bones: Seq<BoneData>, i: usize, length: nat) -> Seq<int>
    decreases length,
{
    if length == 0 || i >= bones.len() {
        Seq::empty()
    } else {
        match bones[i as int].parent_index {
            None => seq![i as int],
            Some(p) => seq![i as int] + chain(bones, p, (length - 1) as nat),
        }
    }
}

/// The way up from a bone passes as many bones as it is long, each a bone
/// of the skeleton, and each with a shorter way up than the one before.
proof fn lemma_chain(bones: Seq<BoneData>, i: usize, steps: nat)
    requires
        way_up(bones, Seq::empty(), i, steps) is Some,
    ensures
        chain(bones, i, steps).len() == way_up(bones, Seq::empty(), i, steps)->0,
        forall|k: int|
            0 <= k < chain(bones, i, steps).len() ==> {
                &&& 0 <= #[trigger] chain(bones, i, steps)[k] < bones.len()
                &&& way_up(
                    bones,
                    Seq::empty(),
                    chain(bones, i, steps)[k] as usize,
                    (steps - k) as nat,
                ) == Some((chain(bones, i, steps).len() - k) as nat)
            },
    decreases steps,
{
    let nothing = Seq::<usize>::empty();
    match bones[i as int].parent_index {
        None => {},
        Some(p) => {
            lemma_chain(bones, p, (steps - 1) as nat);
            let rest = chain(bones, p, (steps - 1) as nat);
            let all = chain(bones, i, steps);
            assert forall|k: int| 0 <= k < all.len() implies {
                &&& 0 <= #[trigger] all[k] < bones.len()
                &&& way_up(bones, nothing, all[k] as usize, (steps - k) as nat) == Some(
                    (all.len() - k) as nat,
                )
            } by {
                if k > 0 {
                    assert(all[k] == rest[k - 1]);
                }
            }
        },
    }
}

/// The way up from a bone is never longer than the skeleton has bones.
proof fn lemma_way_up_short(bones: Seq<BoneData>, i: usize, steps: nat)
    requires
        way_up(bones, Seq::empty(), i, steps) is Some,
    ensures
        way_up(bones, Seq::empty(), i, steps)->0 <= bones.len(),
{
    let nothing = Seq::<usize>::empty();
    lemma_chain(bones, i, steps);
    let c = chain(bones, i, steps);
    assert forall|j: int, k: int| 0 <= j < c.len() && 0 <= k < c.len() && j != k implies c[j]
        != c[k] by {
        if c[j] == c[k] {
            lemma_way_up_fuel(bones, nothing, c[j] as usize, (steps - j) as nat, (steps - k) as nat);
        }
    }
    assert(c.no_duplicates());
    c.unique_seq_to_set();
    let range = vstd::set_lib::set_int_range(0, bones.len() as int);
    vstd::set_lib::lemma_int_range(0, bones.len() as int);
    assert forall|x: int| c.to_set().contains(x) implies range.contains(x) by {
        let k = choose|k: int| 0 <= k < c.len() && c[k] == x;
        assert(0 <= c[k] < bones.len());
    }
    vstd::set_lib::lemma_len_subset(c.to_set(), range);
}

/// The way up from a bone to the first placed bone is there, and no longer,
/// where the way up to a root is.
proof fn lemma_way_up_with_order(bones: Seq<BoneData>, order: Seq<usize>, i: usize, steps: nat)
    requires
        way_up(bones, Seq::empty(), i, steps) is Some,
    ensures
        way_up(bones, order, i, steps) is Some,
    decreases steps,
{
    if order.contains(i) {
    } else {
        match bones[i as int].parent_index {
            None => {},
            Some(p) => {
                lemma_way_up_with_order(bones, order, p, (steps - 1) as nat);
            },
        }
    }
}

/// With as much fuel as there are bones, every bone of a sound hierarchy
/// can be placed.
proof fn lemma_sound_placed(bones: Seq<BoneData>, order: Seq<usize>, i: usize)
    requires
        sound(bones),
        i < bones.len(),
    ensures
        placed_with(bones, order, i, bones.len()) is Some,
{
    let nothing = Seq::<usize>::empty();
    assert(reaches_root(bones, i));
    let steps = choose|steps: nat| rooted(bones, i, steps);
    lemma_rooted_way_up(bones, i, steps);
    lemma_way_up_short(bones, i, steps);
    let d = way_up(bones, nothing, i, steps)->0;
    lemma_way_up_limit(bones, i, steps);
    lemma_rooted_way_up(bones, i, d);
    lemma_rooted_more(bones, i, d, bones.len());
    lemma_rooted_way_up(bones, i, bones.len());
    lemma_way_up_with_order(bones, order, i, bones.len());
    lemma_way_up_placed(bones, order, i, bones.len());
}

/// A way up that is measured can be walked with no more fuel than it is
/// long.
proof fn lemma_way_up_limit(bones: Seq<BoneData>, i: usize, steps: nat)
    requires
        way_up(bones, Seq::empty(), i, steps) is Some,
    ensures
        way_up(bones, Seq::empty(), i, way_up(bones, Seq::empty(), i, steps)->0) is Some,
    decreases steps,
{
    match bones[i as int].parent_index {
        None => {},
        Some(p) => {
            lemma_way_up_limit(bones, p, (steps - 1) as nat);
        },
    }
}

proof fn lemma_sound_upto(bones: Seq<BoneData>, upto: nat)
    requires
        sound(bones),
        upto <= bones.len() <= usize::MAX,
    ensures
        order_upto(bones, upto) is Some,
    decreases upto,
{
    if upto > 0 {
        lemma_sound_upto(bones, (upto - 1) as nat);
        lemma_sound_placed(bones, order_upto(bones, (upto - 1) as nat)->0, (upto - 1) as usize);
    }
}

/// In an order that keeps parents first, the way up from the bone at
/// position `k` ends at a root after at most `k + 1` bones.
proof fn lemma_ordered_rooted(bones: Seq<BoneData>, order: Seq<usize>, k: int)
    requires
        parents_first(bones, order),
        0 <= k < order.len(),
    ensures
        rooted(bones, order[k], (k + 1) as nat),
    decreases k,
{
    match bones[order[k] as int].parent_index {
        None => {},
        Some(p) => {
            let j = choose|j: int| 0 <= j < k && order[j] == p;
            lemma_ordered_rooted(bones, order, j);
            lemma_rooted_more(bones, p, (j + 1) as nat, k as nat);
        },
    }
}

/// There is an order in which to compute world transforms exactly for the
/// sound hierarchies.
pub proof fn lemma_bind_order_sound(bones: Seq<BoneData>)
    requires
        bones.len() <= usize::MAX,
    ensures
        bind_order(bones) is Some <==> sound(bones),
{
    if sound(bones) {
        lemma_sound_upto(bones, bones.len());
    }
    if bind_order(bones) is Some {
        lemma_bind_order(bones);
        let order = bind_order(bones)->0;
        assert forall|i: usize| i < bones.len() implies #[trigger] reaches_root(bones, i) by {
            assert(order.contains(i));
            let k = choose|k: int| 0 <= k < order.len() && order[k] == i;
            lemma_ordered_rooted(bones, order, k);
        }
    }
}

/// Every bone that has a parent stands after it.
pub open spec fn parents_before(bones: Seq<BoneData>) -> bool {
    forall|k: int|
        0 <= k < bones.len() ==> match (#[trigger] bones[k]).parent_index {
            Some(p) => p < k,
            None => true,
        }
}

proof fn lemma_rooted_at(bones: Seq<BoneData>, k: int)
    requires
        parents_before(bones),
        0 <= k < bones.len() <= usize::MAX,
    ensures
        rooted(bones, k as usize, (k + 1) as nat),
    decreases k,
{
    match bones[k].parent_index {
        Some(p) => {
            lemma_rooted_at(bones, p as int);
            lemma_rooted_more(bones, p, (p + 1) as nat, k as nat);
        },
        None => {},
    }
}

/// A hierarchy in which every bone stands after its parent is sound.
pub proof fn lemma_parents_before_sound(bones: Seq<BoneData>)
    requires
        parents_before(bones),
        bones.len() <= usize::MAX,
    ensures
        sound(bones),
{
    assert forall|i: usize| i < bones.len() implies #[trigger] reaches_root(bones, i) by {
        lemma_rooted_at(bones, i as int);
    }
}

} // verus!
