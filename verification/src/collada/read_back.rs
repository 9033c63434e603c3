//! What the COLLADA assembler writes, the reader reads back: the positions,
//! normals, texture coordinates and indices of a mesh come out of its
//! `<geometry>` element as they went in.

use vstd::prelude::*;
use crate::collada::controller::{lemma_matrix_read_back, matrix_rows};
use crate::collada::document::bone_head;
use crate::collada::geometry::{
    geometry_element,
    input_count,
    input_element,
    mesh_sources,
    offset_input,
    repeated_indices,
    triangles_element,
    vertices_element,
};
use crate::collada::ids::{decimal_words, geometry_id, sanitized, spaced};
use crate::collada::scene::{JsonBone, JsonMeshObject};
use crate::collada::sources::{flat2, flat3, float_source};
use crate::model::{Vec2, Vec3};
use crate::numbers::{
    naturals_usize,
    pairs,
    strict_scalars,
    strict_unsigned,
    strided,
    triples,
    u32_words,
};
use crate::read::geometry::{
    all_primitive_indices,
    attribute_is,
    attribute_values,
    declared_offset,
    first_primitive_values,
    first_with,
    input_values,
    is_position_input,
    mesh_indices,
    mesh_normals,
    mesh_positions,
    mesh_uvs,
    primitive_indices,
    primitive_values,
    source_values,
    stand_in_values,
    Attribute,
};
use crate::read::hierarchy::{bone_name, names_bone, node_transform};
use crate::scalar::Scalar;
use crate::text::{
    decimal_digits,
    is_digit,
    is_space,
    lemma_decimal_round_trip,
    lemma_word_len_bound,
    lemma_word_len_is,
    parsed_unsigned,
    unsigned_digits,
    without_leading,
    word_len,
    words,
};
use crate::xml::{
    as_words,
    element_model,
    elements_named,
    empty_element,
    first_element,
    lemma_key_position,
    lemma_node_models_index,
    lemma_node_models_len,
    lookup,
    node_model,
    pair_texts,
    with_attribute,
    with_child,
    with_numbers,
    with_text,
    ElementModel,
    NodeModel,
    TextModel,
    XmlElement,
    XmlNode,
};

verus! {

/// A word: it is not empty and holds no separator.
pub open spec fn is_word(w: Seq<char>) -> bool {
    w.len() > 0 && forall|k: int| 0 <= k < w.len() ==> !is_space(#[trigger] w[k])
}

/// A text that is one word has this word and no other.
proof fn lemma_words_of_word(w: Seq<char>)
    requires
        is_word(w),
    ensures
        words(w) == seq![w],
{
    lemma_word_len_is(w, w.len() as int);
    assert(w.take(w.len() as int) =~= w);
    assert(w.skip(w.len() as int) =~= Seq::<char>::empty());
    assert(words(w.skip(w.len() as int)) =~= Seq::<Seq<char>>::empty());
    assert(seq![w] + Seq::<Seq<char>>::empty() =~= seq![w]);
}

/// A word ends where the text goes on with a separator.
proof fn lemma_word_len_before(a: Seq<char>, b: Seq<char>)
    requires
        b.len() > 0,
        is_space(b[0]),
    ensures
        word_len(a + b) == word_len(a),
    decreases a.len(),
{
    if a.len() == 0 {
        assert(a + b =~= b);
    } else if is_space(a[0]) {
        assert((a + b)[0] == a[0]);
    } else {
        assert((a + b)[0] == a[0]);
        assert((a + b).drop_first() =~= a.drop_first() + b);
        lemma_word_len_before(a.drop_first(), b);
    }
}

/// A blank and a word behind a text add this word to its words.
proof fn lemma_words_with_word(a: Seq<char>, w: Seq<char>)
    requires
        is_word(w),
    ensures
        words(a + " "@ + w) == words(a).push(w),
    decreases a.len(),
{
    reveal_strlit(" ");
    let blank = " "@;
    assert(blank.len() == 1 && blank[0] == ' ');
    assert(is_space(blank[0]));
    let s = a + blank + w;
    if a.len() == 0 {
        assert(s.drop_first() =~= w);
        assert(s[0] == blank[0]);
        lemma_words_of_word(w);
        assert(words(a) =~= Seq::<Seq<char>>::empty());
        assert(Seq::<Seq<char>>::empty().push(w) =~= seq![w]);
    } else if is_space(a[0]) {
        assert(s[0] == a[0]);
        assert(s.drop_first() =~= a.drop_first() + blank + w);
        lemma_words_with_word(a.drop_first(), w);
    } else {
        assert(s[0] == a[0]);
        assert(s =~= a + (blank + w));
        assert((blank + w)[0] == blank[0]);
        lemma_word_len_before(a, blank + w);
        lemma_word_len_bound(a);
        let n = word_len(a) as int;
        assert(s.take(n) =~= a.take(n));
        assert(s.skip(n) =~= a.skip(n) + blank + w);
        lemma_words_with_word(a.skip(n), w);
        assert(seq![a.take(n)] + words(a.skip(n)).push(w) =~= (seq![a.take(n)] + words(
            a.skip(n),
        )).push(w));
    }
}

/// Words that are written with one blank between each two are read as
/// these words.
pub proof fn lemma_words_of_spaced(list: Seq<Seq<char>>)
    requires
        forall|i: int| 0 <= i < list.len() ==> is_word(#[trigger] list[i]),
    ensures
        words(spaced(list)) == list,
    decreases list.len(),
{
    if list.len() == 0 {
        assert(words(spaced(list)) =~= list);
    } else if list.len() == 1 {
        lemma_words_of_word(list[0]);
        assert(seq![list[0]] =~= list);
    } else {
        let front = list.drop_last();
        assert forall|i: int| 0 <= i < front.len() implies is_word(#[trigger] front[i]) by {
            assert(front[i] == list[i]);
        }
        lemma_words_of_spaced(front);
        assert(is_word(list[list.len() - 1]));
        lemma_words_with_word(spaced(front), list.last());
        assert(front.push(list.last()) =~= list);
    }
}

/// A number in decimal notation is a word, and is read as this number.
pub proof fn lemma_decimal_word(n: nat, max: nat)
    requires
        n <= max,
    ensures
        is_word(decimal_digits(n)),
        parsed_unsigned(decimal_digits(n), max) == Some(n),
{
    lemma_decimal_round_trip(n);
    let d = decimal_digits(n);
    assert forall|k: int| 0 <= k < d.len() implies !is_space(#[trigger] d[k]) by {
        assert(is_digit(d[k]));
    }
    assert(is_digit(d[0]));
    assert(d[0] != '+');
    assert(unsigned_digits(d) == d);
}

/// Numbers in decimal notation are read as these numbers.
pub proof fn lemma_decimal_words_read(numbers: Seq<usize>, max: nat)
    requires
        forall|i: int| 0 <= i < numbers.len() ==> #[trigger] numbers[i] <= max,
    ensures
        strict_unsigned(decimal_words(numbers), max) == Some(naturals_usize(numbers)),
        forall|i: int|
            0 <= i < numbers.len() ==> is_word(#[trigger] decimal_words(numbers)[i]),
    decreases numbers.len(),
{
    let list = decimal_words(numbers);
    if numbers.len() == 0 {
        assert(naturals_usize(numbers) =~= Seq::<nat>::empty());
    } else {
        let front = numbers.drop_last();
        assert forall|i: int| 0 <= i < front.len() implies #[trigger] front[i] <= max by {
            assert(front[i] == numbers[i]);
        }
        lemma_decimal_words_read(front, max);
        assert(list.drop_last() =~= decimal_words(front));
        assert(numbers[numbers.len() - 1] <= max);
        lemma_decimal_word(numbers.last() as nat, max);
        assert(list.last() == decimal_digits(numbers.last() as nat));
        assert(naturals_usize(front).push(numbers.last() as nat) =~= naturals_usize(numbers));
        assert forall|i: int| 0 <= i < numbers.len() implies is_word(#[trigger] list[i]) by {
            if i < front.len() {
                assert(list[i] == decimal_words(front)[i]);
            }
        }
    }
}

/// Where the entries of indices written `times` times over stand.
proof fn lemma_repeated_entries(indices: Seq<u32>, times: nat)
    ensures
        repeated_indices(indices, times).len() == indices.len() * times,
        forall|j: int, c: int|
            0 <= j < indices.len() && 0 <= c < times ==> #[trigger] repeated_indices(
                indices,
                times,
            )[j * times + c] == indices[j] as usize,
    decreases indices.len(),
{
    let all = repeated_indices(indices, times);
    if indices.len() == 0 {
        assert(indices.len() * times == 0) by (nonlinear_arith)
            requires
                indices.len() == 0,
        ;
    } else {
        let front = indices.drop_last();
        let before = repeated_indices(front, times);
        lemma_repeated_entries(front, times);
        let n = front.len() as int;
        assert(n * times + times == indices.len() * times) by (nonlinear_arith)
            requires
                n + 1 == indices.len(),
        ;
        assert forall|j: int, c: int| 0 <= j < indices.len() && 0 <= c < times implies #[trigger] all[j
            * times + c] == indices[j] as usize by {
            assert(0 <= j * times && j * times + times <= n * times + times) by (nonlinear_arith)
                requires
                    0 <= j <= n,
                    0 <= times,
            ;
            if j < n {
                assert(j * times + times <= n * times) by (nonlinear_arith)
                    requires
                        0 <= j < n,
                        0 <= times,
                ;
                assert(all[j * times + c] == before[j * times + c]);
                assert(front[j] == indices[j]);
            } else {
                assert(all[n * times + c] == indices.last() as usize);
            }
        }
    }
}

/// Of indices that stand `times` times over, those that are `times` apart
/// are the indices, each once.
proof fn lemma_strided_repeated(values: Seq<u32>, indices: Seq<u32>, times: nat, j: int)
    requires
        times > 0,
        0 <= j <= indices.len(),
        values.len() == indices.len() * times,
        forall|i: int, c: int|
            0 <= i < indices.len() && 0 <= c < times ==> #[trigger] values[i * times + c]
                == indices[i],
    ensures
        strided(values, (j * times) as nat, times) == indices.skip(j),
    decreases indices.len() - j,
{
    if j == indices.len() {
        assert(indices.skip(j) =~= Seq::<u32>::empty());
    } else {
        assert(0 <= j * times && j * times + times <= indices.len() * times && (j + 1) * times
            == j * times + times) by (nonlinear_arith)
            requires
                0 <= j < indices.len(),
                times > 0,
        ;
        lemma_strided_repeated(values, indices, times, j + 1);
        assert(values[j * times + 0] == indices[j]);
        assert(seq![indices[j]] + indices.skip(j + 1) =~= indices.skip(j));
    }
}

/// The text of the stream `<p>`: each index once for every input, in
/// decimal notation, with one blank between each two.
pub open spec fn index_text(indices: Seq<u32>, times: nat) -> Seq<char> {
    spaced(decimal_words(repeated_indices(indices, times)))
}

/// The text of a stream `<p>` is read as numbers of which those that are one
/// stride apart are the indices.
pub proof fn lemma_index_text_read(indices: Seq<u32>, times: nat)
    requires
        times > 0,
    ensures
        u32_words(index_text(indices, times)) is Some,
        strided(u32_words(index_text(indices, times))->0, 0, times) == indices,
{
    let all = repeated_indices(indices, times);
    lemma_repeated_entries(indices, times);
    assert forall|i: int| 0 <= i < all.len() implies #[trigger] all[i] <= u32::MAX as nat by {
        let j = i / (times as int);
        let c = i % (times as int);
        assert(i == j * times + c && 0 <= c < times && 0 <= j < indices.len())
            by (nonlinear_arith)
            requires
                j == i / (times as int),
                c == i % (times as int),
                times > 0,
                0 <= i < indices.len() * times,
        ;
        assert(all[j * times + c] == indices[j] as usize);
    }
    lemma_decimal_words_read(all, u32::MAX as nat);
    lemma_words_of_spaced(decimal_words(all));
    let values = u32_words(index_text(indices, times))->0;
    assert(values.len() == all.len());
    assert forall|i: int, c: int| 0 <= i < indices.len() && 0 <= c < times implies #[trigger] values[i
        * times + c] == indices[i] by {
        assert(0 <= i * times && i * times + times <= indices.len() * times) by (nonlinear_arith)
            requires
                0 <= i < indices.len(),
                times > 0,
        ;
        assert(all[i * times + c] == indices[i] as usize);
        assert(values[i * times + c] == (all[i * times + c] as nat) as u32);
    }
    lemma_strided_repeated(values, indices, times, 0);
    assert(0 * times == 0) by (nonlinear_arith);
    assert(indices.skip(0) =~= indices);
}

/// Whether a node is an element called `name`.
pub open spec fn is_named(node: XmlNode, name: Seq<char>) -> bool {
    node matches XmlNode::Element(e) && e.name@ == name
}

/// The nodes of an element are as many as those of its model, and each has
/// its model there.
proof fn lemma_children_models(e: XmlElement)
    ensures
        e.children@.len() == element_model(e).children.len(),
        element_model(e).name == e.name@,
        element_model(e).attributes == pair_texts(e.attributes@),
        forall|i: int|
            0 <= i < e.children@.len() ==> node_model(#[trigger] e.children@[i]) == element_model(
                e,
            ).children[i],
{
    lemma_node_models_len(e.children@);
    assert forall|i: int| 0 <= i < e.children@.len() implies node_model(#[trigger] e.children@[i])
        == element_model(e).children[i] by {
        lemma_node_models_index(e.children@, i);
    }
}

/// A node whose model is an element is an element with this model.
proof fn lemma_element_node(node: XmlNode, model: ElementModel)
    requires
        node_model(node) == NodeModel::Element(model),
    ensures
        node matches XmlNode::Element(e) && element_model(e) == model && e.name@ == model.name,
{
    match node {
        XmlNode::Element(e) => {
            lemma_children_models(e);
        },
        _ => {},
    }
}

/// Where the elements called `name` are one run of nodes, they are the
/// elements of this run.
proof fn lemma_named_run(nodes: Seq<XmlNode>, name: Seq<char>, from: int, to: int)
    requires
        0 <= from <= to <= nodes.len(),
        forall|i: int| from <= i < to ==> is_named(#[trigger] nodes[i], name),
        forall|i: int|
            (0 <= i < from || to <= i < nodes.len()) ==> !is_named(#[trigger] nodes[i], name),
    ensures
        elements_named(nodes, name).len() == to - from,
        forall|i: int|
            0 <= i < to - from ==> XmlNode::Element(#[trigger] elements_named(nodes, name)[i])
                == nodes[from + i],
    decreases nodes.len(),
{
    if nodes.len() > 0 {
        let front = nodes.drop_last();
        let n = front.len() as int;
        assert forall|i: int| 0 <= i < n implies #[trigger] front[i] == nodes[i] by {}
        if to == nodes.len() && from < to {
            lemma_named_run(front, name, from, to - 1);
            assert(is_named(nodes[n], name));
        } else if to == nodes.len() {
            lemma_named_run(front, name, from - 1, to - 1);
            assert(!is_named(nodes[n], name));
        } else {
            lemma_named_run(front, name, from, to);
            assert(!is_named(nodes[n], name));
        }
    }
}

/// The first element called `name` is the one before which none is called
/// so.
proof fn lemma_first_element_at(nodes: Seq<XmlNode>, name: Seq<char>, at: int)
    requires
        0 <= at < nodes.len(),
        is_named(nodes[at], name),
        forall|i: int| 0 <= i < at ==> !is_named(#[trigger] nodes[i], name),
    ensures
        first_element(nodes, name) is Some,
        XmlNode::Element(first_element(nodes, name)->0) == nodes[at],
    decreases at,
{
    if at > 0 {
        let rest = nodes.drop_first();
        assert forall|i: int| 0 <= i < at - 1 implies !is_named(#[trigger] rest[i], name) by {
            assert(rest[i] == nodes[i + 1]);
        }
        assert(rest[at - 1] == nodes[at]);
        assert(!is_named(nodes[0], name));
        lemma_first_element_at(rest, name, at - 1);
    }
}

/// The value of a key is that of the first pair with this key.
proof fn lemma_lookup_at(pairs: Seq<(String, String)>, key: Seq<char>, at: int)
    requires
        0 <= at < pairs.len(),
        pairs[at].0@ == key,
        forall|i: int| 0 <= i < at ==> (#[trigger] pairs[i]).0@ != key,
    ensures
        lookup(pairs, key) == Some(pairs[at].1),
    decreases at,
{
    if at > 0 {
        let rest = pairs.drop_first();
        assert forall|i: int| 0 <= i < at - 1 implies (#[trigger] rest[i]).0@ != key by {
            assert(rest[i] == pairs[i + 1]);
        }
        assert(rest[at - 1] == pairs[at]);
        assert(pairs[0].0@ != key);
        lemma_lookup_at(rest, key, at - 1);
    }
}

/// A key that no pair has, has no value.
proof fn lemma_lookup_none(pairs: Seq<(String, String)>, key: Seq<char>)
    requires
        forall|i: int| 0 <= i < pairs.len() ==> (#[trigger] pairs[i]).0@ != key,
    ensures
        lookup(pairs, key) is None,
    decreases pairs.len(),
{
    if pairs.len() > 0 {
        let rest = pairs.drop_first();
        assert forall|i: int| 0 <= i < rest.len() implies (#[trigger] rest[i]).0@ != key by {
            assert(rest[i] == pairs[i + 1]);
        }
        assert(pairs[0].0@ != key);
        lemma_lookup_none(rest, key);
    }
}

/// The first element with an attribute value is the one before which none
/// has it.
proof fn lemma_first_with_at(elements: Seq<XmlElement>, key: Seq<char>, value: Seq<char>, at: int)
    requires
        0 <= at < elements.len(),
        attribute_is(elements[at], key, value),
        forall|i: int| 0 <= i < at ==> !attribute_is(#[trigger] elements[i], key, value),
    ensures
        first_with(elements, key, value) == Some(elements[at]),
    decreases at,
{
    if at > 0 {
        let rest = elements.drop_first();
        assert forall|i: int| 0 <= i < at - 1 implies !attribute_is(#[trigger] rest[i], key, value) by {
            assert(rest[i] == elements[i + 1]);
        }
        assert(rest[at - 1] == elements[at]);
        assert(!attribute_is(elements[0], key, value));
        lemma_first_with_at(rest, key, value, at - 1);
    }
}

/// Where no element has an attribute value, none is found with it.
proof fn lemma_first_with_none(elements: Seq<XmlElement>, key: Seq<char>, value: Seq<char>)
    requires
        forall|i: int| 0 <= i < elements.len() ==> !attribute_is(#[trigger] elements[i], key, value),
    ensures
        first_with(elements, key, value) is None,
    decreases elements.len(),
{
    if elements.len() > 0 {
        let rest = elements.drop_first();
        assert forall|i: int| 0 <= i < rest.len() implies !attribute_is(
            #[trigger] rest[i],
            key,
            value,
        ) by {
            assert(rest[i] == elements[i + 1]);
        }
        assert(!attribute_is(elements[0], key, value));
        lemma_first_with_none(rest, key, value);
    }
}

/// Sources without a name stand in for no attribute.
proof fn lemma_no_stand_in(sources: Seq<XmlElement>, kind: Attribute)
    requires
        forall|i: int| 0 <= i < sources.len() ==> (#[trigger] sources[i]).attribute("name"@) is None,
    ensures
        stand_in_values(sources, kind) == Seq::<Scalar>::empty(),
    decreases sources.len(),
{
    if sources.len() > 0 {
        let rest = sources.drop_first();
        assert forall|i: int| 0 <= i < rest.len() implies (#[trigger] rest[i]).attribute(
            "name"@,
        ) is None by {
            assert(rest[i] == sources[i + 1]);
        }
        assert(sources[0].attribute("name"@) is None);
        lemma_no_stand_in(rest, kind);
    }
}

/// The attributes of an `<input>` element: its semantic and its source,
/// and for one that reads at an offset its offset, in this order; an
/// attribute `set` goes behind them.
proof fn lemma_input_attributes(semantic: Seq<char>, source: Seq<char>, offset: nat)
    ensures
        input_element(semantic, source).name == "input"@,
        input_element(semantic, source).children.len() == 0,
        input_element(semantic, source).attributes == seq![
            ("semantic"@, semantic),
            ("source"@, "#"@ + source),
        ],
        offset_input(semantic, source, offset).name == "input"@,
        offset_input(semantic, source, offset).attributes == seq![
            ("semantic"@, semantic),
            ("source"@, "#"@ + source),
            ("offset"@, decimal_digits(offset)),
        ],
        with_attribute(offset_input(semantic, source, offset), "set"@, "0"@).name == "input"@,
        with_attribute(offset_input(semantic, source, offset), "set"@, "0"@).attributes == seq![
            ("semantic"@, semantic),
            ("source"@, "#"@ + source),
            ("offset"@, decimal_digits(offset)),
            ("set"@, "0"@),
        ],
{
    reveal_strlit("semantic");
    reveal_strlit("source");
    reveal_strlit("offset");
    reveal_strlit("set");
    assert("semantic"@.len() == 8 && "source"@.len() == 6 && "offset"@.len() == 6);
    assert("set"@.len() == 3);
    assert("source"@[0] == 's' && "offset"@[0] == 'o');
    let none = empty_element("input"@);
    lemma_key_position(none.attributes, "semantic"@);
    let one = with_attribute(none, "semantic"@, semantic);
    assert(one.attributes =~= seq![("semantic"@, semantic)]);
    lemma_key_position(one.attributes, "source"@);
    let two = with_attribute(one, "source"@, "#"@ + source);
    assert(two.attributes =~= seq![("semantic"@, semantic), ("source"@, "#"@ + source)]);
    lemma_key_position(two.attributes, "offset"@);
    assert(two.attributes[1].0 != "offset"@);
    let three = with_attribute(two, "offset"@, decimal_digits(offset));
    assert(three.attributes =~= seq![
        ("semantic"@, semantic),
        ("source"@, "#"@ + source),
        ("offset"@, decimal_digits(offset)),
    ]);
    lemma_key_position(three.attributes, "set"@);
    let four = with_attribute(three, "set"@, "0"@);
    assert(four.attributes =~= seq![
        ("semantic"@, semantic),
        ("source"@, "#"@ + source),
        ("offset"@, decimal_digits(offset)),
        ("set"@, "0"@),
    ]);
}

/// An `<input>` element is read by its semantic, and points to the source
/// whose id was written into it behind a `#`.
proof fn lemma_input_read(input: XmlElement, semantic: Seq<char>, source: Seq<char>)
    requires
        element_model(input).attributes.len() >= 2,
        element_model(input).attributes[0] == ("semantic"@, semantic),
        element_model(input).attributes[1] == ("source"@, "#"@ + source),
        source.len() > 0,
        source[0] != '#',
    ensures
        input.attribute("semantic"@) matches Some(v) && v@ == semantic,
        input.attribute("source"@) matches Some(r) && without_leading(r@, '#') == source,
{
    reveal_strlit("semantic");
    reveal_strlit("source");
    reveal_strlit("#");
    assert("semantic"@.len() == 8 && "source"@.len() == 6);
    lemma_children_models(input);
    let pairs = input.attributes@;
    let models = pair_texts(pairs);
    assert(models[0] == (pairs[0].0@, pairs[0].1@));
    assert(models[1] == (pairs[1].0@, pairs[1].1@));
    lemma_lookup_at(pairs, "semantic"@, 0);
    lemma_lookup_at(pairs, "source"@, 1);
    let reference = "#"@ + source;
    assert(reference[0] == '#');
    assert(reference.drop_first() =~= source);
    assert(without_leading(source, '#') == source);
    assert(without_leading(reference, '#') == without_leading(reference.drop_first(), '#'));
}

/// An `<input>` element that was written for the vertices at the offset 0
/// is read as the input of the positions, at the offset 0.
proof fn lemma_vertex_input_read(input: XmlElement, source: Seq<char>)
    requires
        element_model(input) == offset_input("VERTEX"@, source, 0),
    ensures
        is_position_input(input),
        declared_offset(input) == 0,
{
    reveal_strlit("semantic");
    reveal_strlit("source");
    reveal_strlit("offset");
    assert("semantic"@.len() == 8 && "source"@.len() == 6 && "offset"@.len() == 6);
    assert("source"@[0] == 's' && "offset"@[0] == 'o');
    lemma_input_attributes("VERTEX"@, source, 0);
    lemma_children_models(input);
    let pairs = input.attributes@;
    let models = pair_texts(pairs);
    assert(models.len() == 3);
    assert(models[0] == (pairs[0].0@, pairs[0].1@));
    assert(models[1] == (pairs[1].0@, pairs[1].1@));
    assert(models[2] == (pairs[2].0@, pairs[2].1@));
    lemma_lookup_at(pairs, "semantic"@, 0);
    lemma_lookup_at(pairs, "offset"@, 2);
    lemma_decimal_word(0, usize::MAX as nat);
}

/// Numbers that are written as the words of a text are all read.
proof fn lemma_words_read(numbers: Seq<Scalar>)
    ensures
        strict_scalars(as_words(numbers)) == Some(numbers),
    decreases numbers.len(),
{
    let entries = as_words(numbers);
    if numbers.len() == 0 {
        assert(numbers =~= Seq::<Scalar>::empty());
    } else {
        lemma_words_read(numbers.drop_last());
        assert(entries.drop_last() =~= as_words(numbers.drop_last()));
        assert(entries.last() == Some(numbers.last()));
        assert(numbers.drop_last().push(numbers.last()) =~= numbers);
    }
}

/// Where the numbers of vectors of three stand that are written one after
/// the other.
proof fn lemma_flat3_entries(data: Seq<Vec3>)
    ensures
        flat3(data).len() == 3 * data.len(),
        forall|i: int|
            0 <= i < data.len() ==> flat3(data)[3 * i] == (#[trigger] data[i])[0] && flat3(
                data,
            )[3 * i + 1] == data[i][1] && flat3(data)[3 * i + 2] == data[i][2],
    decreases data.len(),
{
    if data.len() > 0 {
        let front = data.drop_last();
        lemma_flat3_entries(front);
        assert forall|i: int| 0 <= i < data.len() implies flat3(data)[3 * i] == (#[trigger] data[i])[0]
            && flat3(data)[3 * i + 1] == data[i][1] && flat3(data)[3 * i + 2] == data[i][2] by {
            if i < front.len() {
                assert(front[i] == data[i]);
            }
        }
    }
}

/// Where the numbers of vectors of two stand that are written one after
/// the other.
proof fn lemma_flat2_entries(data: Seq<Vec2>)
    ensures
        flat2(data).len() == 2 * data.len(),
        forall|i: int|
            0 <= i < data.len() ==> flat2(data)[2 * i] == (#[trigger] data[i])[0] && flat2(
                data,
            )[2 * i + 1] == data[i][1],
    decreases data.len(),
{
    if data.len() > 0 {
        let front = data.drop_last();
        lemma_flat2_entries(front);
        assert forall|i: int| 0 <= i < data.len() implies flat2(data)[2 * i] == (#[trigger] data[i])[0]
            && flat2(data)[2 * i + 1] == data[i][1] by {
            if i < front.len() {
                assert(front[i] == data[i]);
            }
        }
    }
}

/// Vectors of three whose numbers are written one after the other are
/// read, three numbers at a time, as these vectors.
pub proof fn lemma_triples_of_flat3(data: Seq<Vec3>)
    ensures
        triples(flat3(data)) == data,
{
    lemma_flat3_entries(data);
    let back = triples(flat3(data));
    assert(back.len() == data.len());
    assert forall|i: int| 0 <= i < data.len() implies back[i] == data[i] by {
        assert(back[i]@ =~= data[i]@);
    }
    assert(back =~= data);
}

/// Vectors of two whose numbers are written one after the other are read,
/// two numbers at a time, as these vectors.
pub proof fn lemma_pairs_of_flat2(data: Seq<Vec2>)
    ensures
        pairs(flat2(data)) == data,
{
    lemma_flat2_entries(data);
    let back = pairs(flat2(data));
    assert(back.len() == data.len());
    assert forall|i: int| 0 <= i < data.len() implies back[i] == data[i] by {
        assert(back[i]@ =~= data[i]@);
    }
    assert(back =~= data);
}

/// What a `<source>` of numbers holds is read from it; it is found by its
/// id, and has no name.
proof fn lemma_source_read(source: XmlElement, id: Seq<char>, data: Seq<Scalar>, stride: nat)
    requires
        element_model(source) == float_source(id, data, stride),
    ensures
        source.attribute("id"@) matches Some(v) && v@ == id,
        source.attribute("name"@) is None,
        source_values(source) == Some(data),
{
    reveal_strlit("float_array");
    reveal_strlit("technique_common");
    reveal_strlit("id");
    reveal_strlit("name");
    assert("id"@.len() == 2 && "name"@.len() == 4);
    lemma_children_models(source);
    lemma_key_position(empty_element("source"@).attributes, "id"@);
    let pairs = source.attributes@;
    let models = pair_texts(pairs);
    assert(float_source(id, data, stride).attributes =~= seq![("id"@, id)]);
    assert(models[0] == (pairs[0].0@, pairs[0].1@));
    lemma_lookup_at(pairs, "id"@, 0);
    lemma_lookup_none(pairs, "name"@);
    let nodes = source.children@;
    assert(nodes.len() == 2);
    assert(node_model(nodes[0]) == float_source(id, data, stride).children[0]);
    match nodes[0] {
        XmlNode::Element(array) => {
            lemma_children_models(array);
            lemma_first_element_at(nodes, "float_array"@, 0);
            assert(source.child("float_array"@) == Some(array));
            assert(array.children@.len() == 1);
            assert(node_model(array.children@[0]) == NodeModel::Text(
                TextModel { text: Seq::empty(), scalars: as_words(data) },
            ));
            match array.children@[0] {
                XmlNode::Text(t) => {
                    assert(array.text() == Some(t));
                    lemma_words_read(data);
                },
                _ => {},
            }
        },
        _ => {},
    }
}

/// The `<mesh>` element of a mesh: its sources, its `<vertices>` and its
/// `<triangles>`.
pub open spec fn mesh_element(m: JsonMeshObject, id: Seq<char>) -> ElementModel {
    with_child(with_child(mesh_sources(m, id), vertices_element(id)), triangles_element(m, id))
}

/// The numbers of the normals of a mesh as they are written.
pub open spec fn written_normals(m: JsonMeshObject) -> Seq<Scalar> {
    match m.normals {
        Some(n) => flat3(n@),
        None => Seq::empty(),
    }
}

/// The numbers of the texture coordinates of a mesh as they are written.
pub open spec fn written_uvs(m: JsonMeshObject) -> Seq<Scalar> {
    match m.texcoords0 {
        Some(t) => flat2(t@),
        None => Seq::empty(),
    }
}

/// The ids of the three sources of a mesh differ, and none starts with a
/// `#`.
proof fn lemma_source_ids(index: nat, name: Seq<char>)
    ensures
        ({
            let id = geometry_id(index, name);
            &&& id + "-positions"@ != id + "-normals"@
            &&& id + "-positions"@ != id + "-texcoord0"@
            &&& id + "-normals"@ != id + "-texcoord0"@
            &&& (id + "-positions"@)[0] != '#'
            &&& (id + "-normals"@)[0] != '#'
            &&& (id + "-texcoord0"@)[0] != '#'
            &&& (id + "-vertices"@)[0] != '#'
        }),
{
    reveal_strlit("geom_");
    reveal_strlit("-positions");
    reveal_strlit("-normals");
    reveal_strlit("-texcoord0");
    reveal_strlit("-vertices");
    let id = geometry_id(index, name);
    assert(id[0] == 'g');
    assert("-positions"@.len() == 10 && "-normals"@.len() == 8 && "-texcoord0"@.len() == 10);
    assert((id + "-positions"@).len() != (id + "-normals"@).len());
    assert((id + "-texcoord0"@).len() != (id + "-normals"@).len());
    assert((id + "-positions"@)[id.len() as int + 1] == 'p');
    assert((id + "-texcoord0"@)[id.len() as int + 1] == 't');
    assert((id + "-positions"@)[0] == id[0]);
    assert((id + "-normals"@)[0] == id[0]);
    assert((id + "-texcoord0"@)[0] == id[0]);
    assert((id + "-vertices"@)[0] == id[0]);
}

/// The `<geometry>` element of a mesh has its `<mesh>` element.
proof fn lemma_geometry_mesh(m: JsonMeshObject, index: nat, geometry: XmlElement)
    requires
        element_model(geometry) == geometry_element(m, index),
    ensures
        geometry.child("mesh"@) matches Some(mesh) && element_model(mesh) == mesh_element(
            m,
            geometry_id(index, m.name@),
        ),
{
    lemma_children_models(geometry);
    let wanted = geometry_element(m, index).children;
    assert(wanted.len() == 1);
    assert(node_model(geometry.children@[0]) == wanted[0]);
    lemma_element_node(geometry.children@[0], mesh_element(m, geometry_id(index, m.name@)));
    lemma_first_element_at(geometry.children@, "mesh"@, 0);
}

/// What is found in the `<mesh>` element of a mesh: its sources, each read
/// by its id; its `<vertices>`; and its one `<triangles>` element.
proof fn lemma_mesh_parts(m: JsonMeshObject, id: Seq<char>, mesh: XmlElement)
    requires
        element_model(mesh) == mesh_element(m, id),
    ensures
        ({
            let sources = mesh.children_named("source"@);
            &&& sources.len() == input_count(m)
            &&& element_model(sources[0]) == float_source(
                id + "-positions"@,
                flat3(m.positions@),
                3,
            )
            &&& m.normals is Some ==> element_model(sources[1]) == float_source(
                id + "-normals"@,
                written_normals(m),
                3,
            )
            &&& m.texcoords0 is Some ==> element_model(sources[sources.len() - 1]) == float_source(
                id + "-texcoord0"@,
                written_uvs(m),
                2,
            )
        }),
        mesh.child("vertices"@) matches Some(v) && element_model(v) == vertices_element(id),
        mesh.children_named("triangles"@).len() == 1,
        element_model(mesh.children_named("triangles"@)[0]) == triangles_element(m, id),
{
    reveal_strlit("source");
    reveal_strlit("vertices");
    reveal_strlit("triangles");
    assert("source"@.len() == 6 && "vertices"@.len() == 8 && "triangles"@.len() == 9);
    lemma_children_models(mesh);
    let parts = mesh_element(m, id).children;
    let nodes = mesh.children@;
    let count = input_count(m) as int;
    assert(mesh_sources(m, id).children.len() == count);
    assert(parts.len() == count + 2);
    assert forall|i: int| 0 <= i < parts.len() implies (#[trigger] nodes[i] matches XmlNode::Element(
        e,
    ) && parts[i] == NodeModel::Element(element_model(e)) && e.name@ == (if i < count {
        "source"@
    } else if i == count {
        "vertices"@
    } else {
        "triangles"@
    })) by {
        assert(node_model(nodes[i]) == parts[i]);
        assert(parts[i] is Element);
        lemma_element_node(nodes[i], parts[i]->Element_0);
    }
    assert forall|i: int| 0 <= i < count implies is_named(#[trigger] nodes[i], "source"@) by {}
    assert forall|i: int| count <= i < nodes.len() implies !is_named(
        #[trigger] nodes[i],
        "source"@,
    ) by {}
    lemma_named_run(nodes, "source"@, 0, count);
    assert forall|i: int| 0 <= i < count implies !is_named(#[trigger] nodes[i], "vertices"@) by {}
    lemma_first_element_at(nodes, "vertices"@, count);
    assert forall|i: int| 0 <= i < count + 1 implies !is_named(#[trigger] nodes[i], "triangles"@) by {}
    lemma_named_run(nodes, "triangles"@, count + 1, count + 2);
    let sources = mesh.children_named("source"@);
    assert(XmlNode::Element(sources[0]) == nodes[0]);
    if m.normals is Some {
        assert(XmlNode::Element(sources[1]) == nodes[1]);
    }
    assert(XmlNode::Element(sources[count - 1]) == nodes[count - 1]);
    assert(XmlNode::Element(mesh.children_named("triangles"@)[0]) == nodes[count + 1]);
}

/// What is found in the `<triangles>` element of a mesh: an input for every
/// index channel, and the text of the stream `<p>`.
proof fn lemma_triangle_parts(m: JsonMeshObject, id: Seq<char>, triangles: XmlElement)
    requires
        element_model(triangles) == triangles_element(m, id),
    ensures
        ({
            let inputs = triangles.children_named("input"@);
            &&& inputs.len() == input_count(m)
            &&& element_model(inputs[0]) == offset_input("VERTEX"@, id + "-vertices"@, 0)
            &&& m.normals is Some ==> element_model(inputs[1]) == offset_input(
                "NORMAL"@,
                id + "-normals"@,
                1,
            )
            &&& m.texcoords0 is Some ==> element_model(inputs[inputs.len() - 1]) == with_attribute(
                offset_input("TEXCOORD"@, id + "-texcoord0"@, (inputs.len() - 1) as nat),
                "set"@,
                "0"@,
            )
        }),
        triangles.child("p"@) matches Some(p) && (p.text() matches Some(t) && t.text@ == index_text(
            m.vertex_indices@,
            input_count(m),
        )),
{
    reveal_strlit("input");
    reveal_strlit("p");
    assert("input"@.len() == 5 && "p"@.len() == 1);
    let k = input_count(m) as int;
    let text = index_text(m.vertex_indices@, input_count(m));
    let wanted = triangles_element(m, id).children;
    let nodes = triangles.children@;
    lemma_children_models(triangles);
    lemma_input_attributes("VERTEX"@, id + "-vertices"@, 0);
    lemma_input_attributes("NORMAL"@, id + "-normals"@, 1);
    lemma_input_attributes("TEXCOORD"@, id + "-texcoord0"@, 1);
    lemma_input_attributes("TEXCOORD"@, id + "-texcoord0"@, 2);
    assert(wanted.len() == k + 1);
    assert(wanted[k] == NodeModel::Element(with_text(empty_element("p"@), text)));
    assert forall|i: int| 0 <= i < wanted.len() implies (#[trigger] nodes[i] matches XmlNode::Element(
        e,
    ) && wanted[i] == NodeModel::Element(element_model(e)) && e.name@ == (if i < k {
        "input"@
    } else {
        "p"@
    })) by {
        assert(node_model(nodes[i]) == wanted[i]);
        assert(wanted[i] is Element);
        lemma_element_node(nodes[i], wanted[i]->Element_0);
    }
    assert forall|i: int| 0 <= i < k implies is_named(#[trigger] nodes[i], "input"@) by {}
    assert(!is_named(nodes[k], "input"@));
    lemma_named_run(nodes, "input"@, 0, k);
    assert forall|i: int| 0 <= i < k implies !is_named(#[trigger] nodes[i], "p"@) by {}
    lemma_first_element_at(nodes, "p"@, k);
    let inputs = triangles.children_named("input"@);
    assert(XmlNode::Element(inputs[0]) == nodes[0]);
    if m.normals is Some {
        assert(XmlNode::Element(inputs[1]) == nodes[1]);
    }
    assert(XmlNode::Element(inputs[k - 1]) == nodes[k - 1]);
    let p = triangles.child("p"@)->0;
    lemma_children_models(p);
    assert(p.children@.len() == 1);
    assert(node_model(p.children@[0]) == NodeModel::Text(TextModel { text, scalars: Seq::empty() }));
    match p.children@[0] {
        XmlNode::Text(t) => {
            assert(p.text() == Some(t));
        },
        _ => {},
    }
}

/// The indices of a mesh are read from its `<triangles>` element as they
/// were written into it.
pub proof fn lemma_triangles_read_back(m: JsonMeshObject, id: Seq<char>, triangles: XmlElement)
    requires
        element_model(triangles) == triangles_element(m, id),
    ensures
        primitive_indices(triangles) == m.vertex_indices@,
{
    lemma_triangle_parts(m, id, triangles);
    lemma_vertex_input_read(triangles.children_named("input"@)[0], id + "-vertices"@);
    lemma_index_text_read(m.vertex_indices@, input_count(m));
}

/// The indices of a mesh are read from its `<geometry>` element as they
/// were written into it: the element has a `<mesh>`, and the reader finds
/// in it the indices of the mesh, each once, in their order.
pub proof fn lemma_indices_read_back(m: JsonMeshObject, index: nat, geometry: XmlElement)
    requires
        element_model(geometry) == geometry_element(m, index),
    ensures
        geometry.child("mesh"@) is Some,
        mesh_indices(geometry.child("mesh"@)->0) == m.vertex_indices@,
{
    let id = geometry_id(index, m.name@);
    lemma_geometry_mesh(m, index, geometry);
    let mesh = geometry.child("mesh"@)->0;
    lemma_mesh_parts(m, id, mesh);
    let found = mesh.children_named("triangles"@);
    lemma_triangles_read_back(m, id, found[0]);
    assert(found.drop_last() =~= Seq::<XmlElement>::empty());
    assert(all_primitive_indices(found.drop_last()) =~= Seq::<u32>::empty());
    assert(Seq::<u32>::empty() + primitive_indices(found[0]) =~= primitive_indices(found[0]));
}

/// The positions of a mesh are read from its `<geometry>` element as they
/// were written into it.
pub proof fn lemma_positions_read_back(m: JsonMeshObject, index: nat, geometry: XmlElement)
    requires
        element_model(geometry) == geometry_element(m, index),
    ensures
        geometry.child("mesh"@) is Some,
        mesh_positions(geometry.child("mesh"@)->0) == m.positions@,
{
    reveal_strlit("input");
    let id = geometry_id(index, m.name@);
    let place = id + "-positions"@;
    lemma_source_ids(index, m.name@);
    lemma_geometry_mesh(m, index, geometry);
    let mesh = geometry.child("mesh"@)->0;
    lemma_mesh_parts(m, id, mesh);
    let sources = mesh.children_named("source"@);
    lemma_source_read(sources[0], place, flat3(m.positions@), 3);
    lemma_first_with_at(sources, "id"@, place, 0);
    let vertices = mesh.child("vertices"@)->0;
    lemma_children_models(vertices);
    lemma_input_attributes("POSITION"@, place, 0);
    assert(vertices.children@.len() == 1);
    assert(node_model(vertices.children@[0]) == NodeModel::Element(
        input_element("POSITION"@, place),
    ));
    lemma_element_node(vertices.children@[0], input_element("POSITION"@, place));
    lemma_first_element_at(vertices.children@, "input"@, 0);
    let input = vertices.child("input"@)->0;
    lemma_input_read(input, "POSITION"@, place);
    assert(input_values(mesh, input) == flat3(m.positions@));
    lemma_triples_of_flat3(m.positions@);
}

/// What the `<triangles>` element of a mesh gives for its normals and for
/// its texture coordinates: the numbers that were written for them.
proof fn lemma_attribute_values(m: JsonMeshObject, index: nat, mesh: XmlElement)
    requires
        element_model(mesh) == mesh_element(m, geometry_id(index, m.name@)),
    ensures
        attribute_values(mesh, Attribute::Normal) == (if written_normals(m).len() >= 3 {
            written_normals(m)
        } else {
            Seq::empty()
        }),
        attribute_values(mesh, Attribute::TexCoord) == (if written_uvs(m).len() >= 2 {
            written_uvs(m)
        } else {
            Seq::empty()
        }),
{
    reveal_strlit("VERTEX");
    reveal_strlit("NORMAL");
    reveal_strlit("TEXCOORD");
    assert("VERTEX"@.len() == 6 && "NORMAL"@.len() == 6 && "TEXCOORD"@.len() == 8);
    assert("VERTEX"@[0] == 'V' && "NORMAL"@[0] == 'N');
    let id = geometry_id(index, m.name@);
    lemma_source_ids(index, m.name@);
    lemma_mesh_parts(m, id, mesh);
    let sources = mesh.children_named("source"@);
    let found = mesh.children_named("triangles"@);
    let triangles = found[0];
    lemma_triangle_parts(m, id, triangles);
    let inputs = triangles.children_named("input"@);
    let last = inputs.len() - 1;
    lemma_input_attributes("VERTEX"@, id + "-vertices"@, 0);
    lemma_input_attributes("NORMAL"@, id + "-normals"@, 1);
    lemma_input_attributes("TEXCOORD"@, id + "-texcoord0"@, last as nat);
    lemma_source_read(sources[0], id + "-positions"@, flat3(m.positions@), 3);
    lemma_input_read(inputs[0], "VERTEX"@, id + "-vertices"@);
    if m.normals is Some {
        lemma_source_read(sources[1], id + "-normals"@, written_normals(m), 3);
        lemma_input_read(inputs[1], "NORMAL"@, id + "-normals"@);
    }
    if m.texcoords0 is Some {
        lemma_source_read(sources[last], id + "-texcoord0"@, written_uvs(m), 2);
        lemma_input_read(inputs[last], "TEXCOORD"@, id + "-texcoord0"@);
    }
    assert forall|i: int| 0 <= i < sources.len() implies (#[trigger] sources[i]).attribute(
        "name"@,
    ) is None by {
        assert(i == 0 || (m.normals is Some && i == 1) || (m.texcoords0 is Some && i == last));
    }
    lemma_no_stand_in(sources, Attribute::Normal);
    lemma_no_stand_in(sources, Attribute::TexCoord);
    assert(found.drop_first() =~= Seq::<XmlElement>::empty());
    if m.normals is Some {
        lemma_first_with_at(inputs, "semantic"@, "NORMAL"@, 1);
        lemma_first_with_at(sources, "id"@, id + "-normals"@, 1);
        assert(primitive_values(mesh, triangles, Attribute::Normal) == written_normals(m));
    } else {
        assert forall|i: int| 0 <= i < inputs.len() implies !attribute_is(
            #[trigger] inputs[i],
            "semantic"@,
            "NORMAL"@,
        ) by {
            assert(i == 0 || (m.texcoords0 is Some && i == last));
        }
        lemma_first_with_none(inputs, "semantic"@, "NORMAL"@);
        assert(primitive_values(mesh, triangles, Attribute::Normal) == written_normals(m));
    }
    if m.texcoords0 is Some {
        assert forall|i: int| 0 <= i < last implies !attribute_is(
            #[trigger] inputs[i],
            "semantic"@,
            "TEXCOORD"@,
        ) by {
            assert(i == 0 || (m.normals is Some && i == 1));
        }
        lemma_first_with_at(inputs, "semantic"@, "TEXCOORD"@, last);
        assert forall|i: int| 0 <= i < last implies !attribute_is(
            #[trigger] sources[i],
            "id"@,
            id + "-texcoord0"@,
        ) by {
            assert(i == 0 || (m.normals is Some && i == 1));
        }
        lemma_first_with_at(sources, "id"@, id + "-texcoord0"@, last);
        assert(primitive_values(mesh, triangles, Attribute::TexCoord) == written_uvs(m));
    } else {
        assert forall|i: int| 0 <= i < inputs.len() implies !attribute_is(
            #[trigger] inputs[i],
            "semantic"@,
            "TEXCOORD"@,
        ) by {
            assert(i == 0 || (m.normals is Some && i == 1));
        }
        lemma_first_with_none(inputs, "semantic"@, "TEXCOORD"@);
        assert(primitive_values(mesh, triangles, Attribute::TexCoord) == written_uvs(m));
    }
    let none = Seq::<Scalar>::empty();
    assert(first_primitive_values(mesh, found.drop_first(), Attribute::Normal) == none);
    assert(first_primitive_values(mesh, found.drop_first(), Attribute::TexCoord) == none);
    assert(first_primitive_values(mesh, found, Attribute::Normal) == (if written_normals(m).len()
        >= 3 {
        written_normals(m)
    } else {
        none
    }));
    assert(first_primitive_values(mesh, found, Attribute::TexCoord) == (if written_uvs(m).len()
        >= 2 {
        written_uvs(m)
    } else {
        none
    }));
}

/// The normals and the texture coordinates of a mesh are read from its
/// `<geometry>` element as they were written into it; none are read where
/// the mesh has none.
pub proof fn lemma_attributes_read_back(m: JsonMeshObject, index: nat, geometry: XmlElement)
    requires
        element_model(geometry) == geometry_element(m, index),
    ensures
        geometry.child("mesh"@) is Some,
        mesh_normals(geometry.child("mesh"@)->0) == (match m.normals {
            Some(n) => n@,
            None => Seq::empty(),
        }),
        mesh_uvs(geometry.child("mesh"@)->0) == (match m.texcoords0 {
            Some(t) => t@,
            None => Seq::empty(),
        }),
{
    lemma_geometry_mesh(m, index, geometry);
    let mesh = geometry.child("mesh"@)->0;
    lemma_attribute_values(m, index, mesh);
    match m.normals {
        Some(n) => {
            lemma_flat3_entries(n@);
            lemma_triples_of_flat3(n@);
            if n@.len() == 0 {
                assert(triples(Seq::<Scalar>::empty()) =~= n@);
            }
        },
        None => {
            assert(triples(Seq::<Scalar>::empty()) =~= Seq::<Vec3>::empty());
        },
    }
    match m.texcoords0 {
        Some(t) => {
            lemma_flat2_entries(t@);
            lemma_pairs_of_flat2(t@);
            if t@.len() == 0 {
                assert(pairs(Seq::<Scalar>::empty()) =~= t@);
            }
        },
        None => {
            assert(pairs(Seq::<Scalar>::empty()) =~= Seq::<Vec2>::empty());
        },
    }
}

/// A bone is read from its `<node>` element as it was written into it:
/// the node is a joint, and gives the name and the transform of the bone,
/// whatever nodes follow its matrix.
pub proof fn lemma_bone_read_back(bone: JsonBone, node: XmlElement)
    requires
        element_model(node).attributes == bone_head(bone).attributes,
        element_model(node).children.len() >= 1,
        element_model(node).children[0] == bone_head(bone).children[0],
    ensures
        names_bone(node),
        bone_name(node) == bone.name@,
        node_transform(node) == bone.transform,
{
    reveal_strlit("id");
    reveal_strlit("name");
    reveal_strlit("sid");
    reveal_strlit("type");
    reveal_strlit("matrix");
    assert("id"@.len() == 2 && "name"@.len() == 4 && "sid"@.len() == 3 && "type"@.len() == 4);
    assert("name"@[0] == 'n' && "type"@[0] == 't');
    let none = empty_element("node"@);
    lemma_key_position(none.attributes, "id"@);
    let one = with_attribute(none, "id"@, sanitized(bone.name@));
    assert(one.attributes =~= seq![("id"@, sanitized(bone.name@))]);
    lemma_key_position(one.attributes, "name"@);
    let two = with_attribute(one, "name"@, bone.name@);
    assert(two.attributes =~= seq![("id"@, sanitized(bone.name@)), ("name"@, bone.name@)]);
    lemma_key_position(two.attributes, "sid"@);
    let three = with_attribute(two, "sid"@, bone.name@);
    assert(three.attributes =~= seq![
        ("id"@, sanitized(bone.name@)),
        ("name"@, bone.name@),
        ("sid"@, bone.name@),
    ]);
    lemma_key_position(three.attributes, "type"@);
    assert(three.attributes[1].0 != "type"@);
    let four = with_attribute(three, "type"@, "JOINT"@);
    assert(four.attributes =~= seq![
        ("id"@, sanitized(bone.name@)),
        ("name"@, bone.name@),
        ("sid"@, bone.name@),
        ("type"@, "JOINT"@),
    ]);
    lemma_children_models(node);
    let pairs = node.attributes@;
    let models = pair_texts(pairs);
    assert(models.len() == 4);
    assert(models[0] == (pairs[0].0@, pairs[0].1@));
    assert(models[1] == (pairs[1].0@, pairs[1].1@));
    assert(models[2] == (pairs[2].0@, pairs[2].1@));
    assert(models[3] == (pairs[3].0@, pairs[3].1@));
    lemma_lookup_at(pairs, "name"@, 1);
    lemma_lookup_at(pairs, "type"@, 3);
    let nodes = node.children@;
    let numbers = matrix_rows(bone.transform);
    assert(node_model(nodes[0]) == NodeModel::Element(
        with_numbers(empty_element("matrix"@), numbers),
    ));
    lemma_element_node(nodes[0], with_numbers(empty_element("matrix"@), numbers));
    lemma_first_element_at(nodes, "matrix"@, 0);
    let matrix = node.child("matrix"@)->0;
    lemma_children_models(matrix);
    assert(matrix.children@.len() == 1);
    assert(node_model(matrix.children@[0]) == NodeModel::Text(
        TextModel { text: Seq::empty(), scalars: as_words(numbers) },
    ));
    match matrix.children@[0] {
        XmlNode::Text(t) => {
            assert(matrix.text() == Some(t));
            lemma_words_read(numbers);
            lemma_matrix_read_back(bone.transform);
        },
        _ => {},
    }
}

} // verus!
