//! Ids and texts for a COLLADA document.

use vstd::prelude::*;
use vstd::string::StringExecFns;
use crate::text::{alphanumeric, decimal_digits, decimal_text, push_decimal, text_chars, texts};

verus! {

/// The character that stands for `c` in an id: `c` itself if it is a letter,
/// a number, `_` or `-`; else `_`.
pub open spec fn sanitized_char(c: char) -> char {
    if alphanumeric(c) || c == '_' || c == '-' {
        c
    } else {
        '_'
    }
}

/// A name as an id: character by character; `id` for the empty name.
pub open spec fn sanitized(name: Seq<char>) -> Seq<char> {
    if name.len() == 0 {
        "id"@
    } else {
        name.map_values(|c: char| sanitized_char(c))
    }
}

/// Makes an id out of a name.
pub fn sanitize_id(s: &str) -> (r: String)
    ensures
        r@ == sanitized(s@),
{
    let chars = text_chars(s);
    let n = chars.len();
    if n == 0 {
        return "id".to_owned();
    }
    let mut out = String::new();
    let mut i: usize = 0;
    while i < n
        invariant
            i <= n,
            n == chars@.len(),
            out@ == chars@.take(i as int).map_values(|c: char| sanitized_char(c)),
        decreases n - i,
    {
        let ch = chars[i];
        let kept = if ch.is_alphanumeric() || ch == '_' || ch == '-' {
            ch
        } else {
            '_'
        };
        out.push(kept);
        proof {
            assert(out@ =~= chars@.take(i + 1).map_values(|c: char| sanitized_char(c)));
        }
        i += 1;
    }
    proof {
        assert(chars@.take(n as int) =~= chars@);
    }
    out
}

/// An id made of a prefix, the position of a mesh, and its name as an id.
pub open spec fn numbered_id(prefix: Seq<char>, index: nat, name: Seq<char>) -> Seq<char> {
    prefix + decimal_digits(index) + "_"@ + sanitized(name)
}

/// The id of the geometry of the mesh at position `index`.
pub open spec fn geometry_id(index: nat, name: Seq<char>) -> Seq<char> {
    numbered_id("geom_"@, index, name)
}

/// The id of the controller of the mesh at position `index`.
pub open spec fn controller_id(index: nat, name: Seq<char>) -> Seq<char> {
    numbered_id("ctrl_"@, index, name)
}

pub(crate) fn make_numbered_id(prefix: &str, index: usize, name: &str) -> (r: String)
    ensures
        r@ == numbered_id(prefix@, index as nat, name@),
{
    let mut id = prefix.to_owned();
    push_decimal(&mut id, index as u64);
    id.append("_");
    let clean = sanitize_id(name);
    id.append(clean.as_str());
    id
}

/// `a` followed by `b`.
pub fn joined(a: &str, b: &str) -> (r: String)
    ensures
        r@ == a@ + b@,
{
    let mut out = a.to_owned();
    out.append(b);
    out
}

pub(crate) fn array_id(id: &str) -> (r: String)
    ensures
        r@ == id@ + "-array"@,
{
    joined(id, "-array")
}

pub(crate) fn reference(id: &str) -> (r: String)
    ensures
        r@ == "#"@ + id@,
{
    joined("#", id)
}

pub(crate) fn decimal(n: usize) -> (r: String)
    ensures
        r@ == decimal_digits(n as nat),
{
    decimal_text(n as u64)
}

/// Words with one blank between each two.
pub open spec fn spaced(list: Seq<Seq<char>>) -> Seq<char>
    decreases list.len(),
{
    if list.len() == 0 {
        Seq::empty()
    } else if list.len() == 1 {
        list[0]
    } else {
        spaced(list.drop_last()) + " "@ + list.last()
    }
}

/// Numbers in decimal notation.
pub open spec fn decimal_words(numbers: Seq<usize>) -> Seq<Seq<char>> {
    numbers.map_values(|n: usize| decimal_digits(n as nat))
}

/// The strings of a list with one blank between each two.
pub fn join_words(list: &Vec<String>) -> (r: String)
    ensures
        r@ == spaced(texts(list@)),
{
    let ghost all = texts(list@);
    let mut out = String::new();
    let n = list.len();
    let mut i: usize = 0;
    proof {
        assert(all.take(0) =~= Seq::<Seq<char>>::empty());
    }
    while i < n
        invariant
            i <= n,
            n == list@.len(),
            all == texts(list@),
            out@ == spaced(all.take(i as int)),
        decreases n - i,
    {
        proof {
            assert(all.take(i + 1).drop_last() =~= all.take(i as int));
            assert(all.take(i + 1).last() == list@[i as int]@);
        }
        if i > 0 {
            out.append(" ");
        }
        out.append(list[i].as_str());
        proof {
            if i == 0 {
                assert(all.take(1)[0] == list@[0]@);
                assert(Seq::<char>::empty() + list@[0]@ =~= list@[0]@);
            }
        }
        i += 1;
    }
    proof {
        assert(all.take(n as int) =~= all);
    }
    out
}

/// The numbers of a list in decimal notation, with one blank between each
/// two.
pub fn join_numbers(list: &Vec<usize>) -> (r: String)
    ensures
        r@ == spaced(decimal_words(list@)),
{
    let ghost all = decimal_words(list@);
    let mut out = String::new();
    let n = list.len();
    let mut i: usize = 0;
    proof {
        assert(all.take(0) =~= Seq::<Seq<char>>::empty());
    }
    while i < n
        invariant
            i <= n,
            n == list@.len(),
            all == decimal_words(list@),
            out@ == spaced(all.take(i as int)),
        decreases n - i,
    {
        proof {
            assert(all.take(i + 1).drop_last() =~= all.take(i as int));
            assert(all.take(i + 1).last() == decimal_digits(list@[i as int] as nat));
        }
        if i > 0 {
            out.append(" ");
        }
        push_decimal(&mut out, list[i] as u64);
        proof {
            if i == 0 {
                assert(all.take(1)[0] == decimal_digits(list@[0] as nat));
                assert(Seq::<char>::empty() + decimal_digits(list@[0] as nat) =~= decimal_digits(
                    list@[0] as nat,
                ));
            }
        }
        i += 1;
    }
    proof {
        assert(all.take(n as int) =~= all);
    }
    out
}

} // verus!
