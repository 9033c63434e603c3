//! Small helpers on lists.

use vstd::prelude::*;

verus! {

/// The view of an optional list.
pub open spec fn optional_view<T>(v: Option<Vec<T>>) -> Option<Seq<T>> {
    match v {
        Some(x) => Some(x@),
        None => None,
    }
}

/// `count` copies of `value`.
pub open spec fn repeated<T>(value: T, count: nat) -> Seq<T> {
    Seq::new(count, |i: int| value)
}

/// A list of `count` copies of `value`.
pub fn repeat<T: Copy>(value: T, count: usize) -> (r: Vec<T>)
    ensures
        r@ == repeated(value, count as nat),
{
    let mut out: Vec<T> = Vec::new();
    let mut i: usize = 0;
    while i < count
        invariant
            i <= count,
            out@.len() == i,
            forall|k: int| 0 <= k < i ==> out@[k] == value,
        decreases count - i,
    {
        out.push(value);
        i += 1;
    }
    proof {
        assert(out@ =~= repeated(value, count as nat));
    }
    out
}

/// A copy of a list.
pub fn copy_list<T: Copy>(list: &Vec<T>) -> (r: Vec<T>)
    ensures
        r@ == list@,
{
    let mut out: Vec<T> = Vec::new();
    let n = list.len();
    let mut i: usize = 0;
    while i < n
        invariant
            i <= n,
            n == list@.len(),
            out@.len() == i,
            forall|k: int| 0 <= k < i ==> out@[k] == list@[k],
        decreases n - i,
    {
        out.push(list[i]);
        i += 1;
    }
    proof {
        assert(out@ =~= list@);
    }
    out
}

} // verus!
