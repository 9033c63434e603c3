//! Lists of numbers read from character data.

use vstd::prelude::*;
use crate::lists::optional_view;
use crate::model::{Vec2, Vec3};
use crate::scalar::Scalar;
use crate::text::{parse_unsigned, parsed_unsigned, split_words, text_chars, views, words};
use crate::xml::XmlText;

verus! {

/// The numbers of a text if each of its words denotes one.
pub open spec fn strict_scalars(entries: Seq<Option<Scalar>>) -> Option<Seq<Scalar>>
    decreases entries.len(),
{
    if entries.len() == 0 {
        Some(Seq::empty())
    } else {
        match (strict_scalars(entries.drop_last()), entries.last()) {
            (Some(front), Some(x)) => Some(front.push(x)),
            _ => None,
        }
    }
}

/// The numbers of a text, its other words passed over.
pub open spec fn loose_scalars(entries: Seq<Option<Scalar>>) -> Seq<Scalar>
    decreases entries.len(),
{
    if entries.len() == 0 {
        Seq::empty()
    } else {
        match entries.last() {
            Some(x) => loose_scalars(entries.drop_last()).push(x),
            None => loose_scalars(entries.drop_last()),
        }
    }
}

/// Consecutive threes of a list; what is left over at the end is dropped.
pub open spec fn triples(values: Seq<Scalar>) -> Seq<Vec3> {
    Seq::new(values.len() / 3, |i: int| [values[3 * i], values[3 * i + 1], values[3 * i + 2]])
}

/// Consecutive twos of a list; what is left over at the end is dropped.
pub open spec fn pairs(values: Seq<Scalar>) -> Seq<Vec2> {
    Seq::new(values.len() / 2, |i: int| [values[2 * i], values[2 * i + 1]])
}

/// The numbers that the words denote if each denotes an unsigned number of
/// at most `max`.
pub open spec fn strict_unsigned(list: Seq<Seq<char>>, max: nat) -> Option<Seq<nat>>
    decreases list.len(),
{
    if list.len() == 0 {
        Some(Seq::empty())
    } else {
        match (strict_unsigned(list.drop_last(), max), parsed_unsigned(list.last(), max)) {
            (Some(front), Some(x)) => Some(front.push(x)),
            _ => None,
        }
    }
}

/// The unsigned numbers of at most `max` among the words, the other words
/// passed over.
pub open spec fn loose_unsigned(list: Seq<Seq<char>>, max: nat) -> Seq<nat>
    decreases list.len(),
{
    if list.len() == 0 {
        Seq::empty()
    } else {
        match parsed_unsigned(list.last(), max) {
            Some(x) => loose_unsigned(list.drop_last(), max).push(x),
            None => loose_unsigned(list.drop_last(), max),
        }
    }
}

/// The words of `text` as unsigned 32-bit numbers, if each denotes one.
pub open spec fn u32_words(text: Seq<char>) -> Option<Seq<u32>> {
    match strict_unsigned(words(text), u32::MAX as nat) {
        Some(v) => Some(v.map_values(|x: nat| x as u32)),
        None => None,
    }
}

/// The unsigned numbers among the words of `text` that fit the machine's
/// word.
pub open spec fn usize_words(text: Seq<char>) -> Seq<usize> {
    loose_unsigned(words(text), usize::MAX as nat).map_values(|x: nat| x as usize)
}

/// The unsigned number that `text` denotes, if it fits the machine's word.
pub open spec fn usize_text(text: Seq<char>) -> Option<usize> {
    match parsed_unsigned(text, usize::MAX as nat) {
        Some(x) => Some(x as usize),
        None => None,
    }
}

/// Machine numbers as natural numbers.
pub open spec fn naturals_u32(v: Seq<u32>) -> Seq<nat> {
    v.map_values(|x: u32| x as nat)
}

/// Machine numbers as natural numbers.
pub open spec fn naturals_usize(v: Seq<usize>) -> Seq<nat> {
    v.map_values(|x: usize| x as nat)
}

/// Every entry of `values` from `from` on, `stride` apart.
pub open spec fn strided(values: Seq<u32>, from: nat, stride: nat) -> Seq<u32>
    decreases
        (if from < values.len() {
            values.len() - from
        } else {
            0
        }),
{
    if from >= values.len() || stride == 0 {
        Seq::empty()
    } else {
        seq![values[from as int]] + strided(values, from + stride, stride)
    }
}

/// The numbers of `text` if each of its words denotes one.
pub fn read_all_scalars(text: &XmlText) -> (r: Option<Vec<Scalar>>)
    ensures
        optional_view(r) == strict_scalars(text.scalars@),
{
    let mut out: Vec<Scalar> = Vec::new();
    let n = text.scalars.len();
    let mut i: usize = 0;
    proof {
        assert(text.scalars@.take(0) =~= Seq::<Option<Scalar>>::empty());
    }
    while i < n
        invariant
            i <= n,
            n == text.scalars@.len(),
            strict_scalars(text.scalars@.take(i as int)) == Some(out@),
        decreases n - i,
    {
        proof {
            assert(text.scalars@.take(i + 1).drop_last() =~= text.scalars@.take(i as int));
        }
        match text.scalars[i] {
            Some(x) => {
                out.push(x);
            },
            None => {
                proof {
                    lemma_strict_scalars_prefix(text.scalars@, i + 1);
                }
                return None;
            },
        }
        i += 1;
    }
    proof {
        assert(text.scalars@.take(n as int) =~= text.scalars@);
    }
    Some(out)
}

/// Once a prefix holds a word that is no number, the whole list does.
proof fn lemma_strict_scalars_prefix(entries: Seq<Option<Scalar>>, k: int)
    requires
        0 <= k <= entries.len(),
        strict_scalars(entries.take(k)) is None,
    ensures
        strict_scalars(entries) is None,
    decreases entries.len() - k,
{
    if k == entries.len() {
        assert(entries.take(k) =~= entries);
    } else {
        assert(entries.take(k + 1).drop_last() =~= entries.take(k));
        lemma_strict_scalars_prefix(entries, k + 1);
    }
}

/// The numbers of `text`, its other words passed over.
pub fn read_scalars(text: &XmlText) -> (r: Vec<Scalar>)
    ensures
        r@ == loose_scalars(text.scalars@),
{
    let mut out: Vec<Scalar> = Vec::new();
    let n = text.scalars.len();
    let mut i: usize = 0;
    proof {
        assert(text.scalars@.take(0) =~= Seq::<Option<Scalar>>::empty());
    }
    while i < n
        invariant
            i <= n,
            n == text.scalars@.len(),
            loose_scalars(text.scalars@.take(i as int)) == out@,
        decreases n - i,
    {
        proof {
            assert(text.scalars@.take(i + 1).drop_last() =~= text.scalars@.take(i as int));
        }
        match text.scalars[i] {
            Some(x) => {
                out.push(x);
            },
            None => {},
        }
        i += 1;
    }
    proof {
        assert(text.scalars@.take(n as int) =~= text.scalars@);
    }
    out
}

/// Groups `values` in threes.
pub fn group_triples(values: &Vec<Scalar>) -> (r: Vec<Vec3>)
    ensures
        r@ == triples(values@),
{
    let mut out: Vec<Vec3> = Vec::new();
    let n = values.len();
    let count = n / 3;
    let mut i: usize = 0;
    while i < count
        invariant
            i <= count,
            n == values@.len(),
            count == n / 3,
            out@.len() == i,
            forall|k: int| 0 <= k < i ==> out@[k] == triples(values@)[k],
        decreases count - i,
    {
        let v: Vec3 = [values[3 * i], values[3 * i + 1], values[3 * i + 2]];
        out.push(v);
        i += 1;
    }
    proof {
        assert(out@ =~= triples(values@));
    }
    out
}

/// Groups `values` in twos.
pub fn group_pairs(values: &Vec<Scalar>) -> (r: Vec<Vec2>)
    ensures
        r@ == pairs(values@),
{
    let mut out: Vec<Vec2> = Vec::new();
    let n = values.len();
    let count = n / 2;
    let mut i: usize = 0;
    while i < count
        invariant
            i <= count,
            n == values@.len(),
            count == n / 2,
            out@.len() == i,
            forall|k: int| 0 <= k < i ==> out@[k] == pairs(values@)[k],
        decreases count - i,
    {
        let v: Vec2 = [values[2 * i], values[2 * i + 1]];
        out.push(v);
        i += 1;
    }
    proof {
        assert(out@ =~= pairs(values@));
    }
    out
}

proof fn lemma_strict_unsigned_prefix(list: Seq<Seq<char>>, max: nat, k: int)
    requires
        0 <= k <= list.len(),
        strict_unsigned(list.take(k), max) is None,
    ensures
        strict_unsigned(list, max) is None,
    decreases list.len() - k,
{
    if k == list.len() {
        assert(list.take(k) =~= list);
    } else {
        assert(list.take(k + 1).drop_last() =~= list.take(k));
        lemma_strict_unsigned_prefix(list, max, k + 1);
    }
}

/// The numbers that the words of `text` denote if each denotes an unsigned
/// 32-bit number.
pub fn read_all_u32(text: &str) -> (r: Option<Vec<u32>>)
    ensures
        optional_view(r) == u32_words(text@),
{
    let chars = text_chars(text);
    let list = split_words(&chars);
    let ghost all = words(text@);
    let mut out: Vec<u32> = Vec::new();
    let n = list.len();
    let mut i: usize = 0;
    proof {
        assert(all.take(0) =~= Seq::<Seq<char>>::empty());
        assert(naturals_u32(out@) =~= Seq::<nat>::empty());
    }
    while i < n
        invariant
            i <= n,
            n == list@.len(),
            all == views(list@),
            all == words(text@),
            strict_unsigned(all.take(i as int), u32::MAX as nat) == Some(naturals_u32(out@)),
        decreases n - i,
    {
        proof {
            assert(all.take(i + 1).drop_last() =~= all.take(i as int));
            assert(all.take(i + 1).last() == list@[i as int]@);
        }
        match parse_unsigned(&list[i], 0xffff_ffffu64) {
            Some(x) => {
                proof {
                    assert(naturals_u32(out@.push(x as u32)) =~= naturals_u32(out@).push(
                        x as nat,
                    ));
                }
                out.push(x as u32);
            },
            None => {
                proof {
                    lemma_strict_unsigned_prefix(all, u32::MAX as nat, i + 1);
                }
                return None;
            },
        }
        i += 1;
    }
    proof {
        assert(all.take(n as int) =~= all);
        assert(naturals_u32(out@).map_values(|x: nat| x as u32) =~= out@);
    }
    Some(out)
}

/// The unsigned numbers among the words of `text`, as far as they fit the
/// machine's word.
pub fn read_usizes(text: &str) -> (r: Vec<usize>)
    ensures
        r@ == usize_words(text@),
{
    let chars = text_chars(text);
    let list = split_words(&chars);
    let ghost all = words(text@);
    let mut out: Vec<usize> = Vec::new();
    let n = list.len();
    let mut i: usize = 0;
    proof {
        assert(all.take(0) =~= Seq::<Seq<char>>::empty());
        assert(naturals_usize(out@) =~= Seq::<nat>::empty());
    }
    while i < n
        invariant
            i <= n,
            n == list@.len(),
            all == views(list@),
            all == words(text@),
            loose_unsigned(all.take(i as int), usize::MAX as nat) == naturals_usize(out@),
        decreases n - i,
    {
        proof {
            assert(all.take(i + 1).drop_last() =~= all.take(i as int));
            assert(all.take(i + 1).last() == list@[i as int]@);
        }
        match parse_unsigned(&list[i], usize::MAX as u64) {
            Some(x) => {
                proof {
                    assert(naturals_usize(out@.push(x as usize)) =~= naturals_usize(out@).push(
                        x as nat,
                    ));
                }
                out.push(x as usize);
            },
            None => {},
        }
        i += 1;
    }
    proof {
        assert(all.take(n as int) =~= all);
        assert(naturals_usize(out@).map_values(|x: nat| x as usize) =~= out@);
    }
    out
}

/// The unsigned number that `text` denotes, if it fits the machine's word.
pub fn read_usize(text: &str) -> (r: Option<usize>)
    ensures
        r == usize_text(text@),
{
    let chars = text_chars(text);
    match parse_unsigned(&chars, usize::MAX as u64) {
        Some(x) => Some(x as usize),
        None => None,
    }
}

/// Every entry of `values` from `from` on, `stride` apart.
pub fn take_strided(values: &Vec<u32>, from: usize, stride: usize) -> (r: Vec<u32>)
    requires
        stride > 0,
    ensures
        r@ == strided(values@, from as nat, stride as nat),
{
    let mut out: Vec<u32> = Vec::new();
    let n = values.len();
    let mut i: usize = from;
    proof {
        assert(Seq::<u32>::empty() + strided(values@, from as nat, stride as nat) =~= strided(
            values@,
            from as nat,
            stride as nat,
        ));
    }
    while i < n
        invariant
            n == values@.len(),
            stride > 0,
            strided(values@, from as nat, stride as nat) == out@ + strided(
                values@,
                i as nat,
                stride as nat,
            ),
        decreases n - i,
    {
        let ghost before = out@;
        out.push(values[i]);
        proof {
            assert(before + (seq![values@[i as int]] + strided(
                values@,
                (i + stride) as nat,
                stride as nat,
            )) =~= out@ + strided(values@, (i + stride) as nat, stride as nat));
        }
        if n - i <= stride {
            proof {
                assert(strided(values@, (i + stride) as nat, stride as nat) =~= Seq::<
                    u32,
                >::empty());
                assert(out@ + Seq::<u32>::empty() =~= out@);
            }
            return out;
        }
        i += stride;
    }
    proof {
        assert(out@ + Seq::<u32>::empty() =~= out@);
    }
    out
}

} // verus!
