//! Extraction of raw geometry from the `<mesh>` element of a document.
//!
//! Nothing here fails: where the document lacks an attribute or its numbers
//! cannot be read, the attribute comes out empty.

use vstd::prelude::*;
use crate::lists::optional_view;
use crate::model::{Vec2, Vec3};
use crate::numbers::{
    group_pairs,
    group_triples,
    pairs,
    read_all_scalars,
    read_all_u32,
    read_usize,
    strict_scalars,
    strided,
    take_strided,
    triples,
    u32_words,
    usize_text,
};
use crate::scalar::Scalar;
use crate::text::{contains_text, strip_leading, text_contains, text_eq, without_leading};
use crate::xml::{
    all_owned,
    find_all_children,
    find_child,
    get_attribute,
    get_element_text,
    owned,
    XmlElement,
};

verus! {

/// A per-vertex attribute that a mesh may carry besides positions.
#[derive(Clone, Copy, Debug, PartialEq, Eq, Structural)]
pub enum Attribute {
    Normal,
    TexCoord,
}

impl Attribute {
    /// The semantic by which an `<input>` announces the attribute.
    pub open spec fn semantic(self) -> Seq<char> {
        match self {
            Attribute::Normal => "NORMAL"@,
            Attribute::TexCoord => "TEXCOORD"@,
        }
    }

    /// How many numbers make one entry.
    pub open spec fn width(self) -> nat {
        match self {
            Attribute::Normal => 3,
            Attribute::TexCoord => 2,
        }
    }

    /// Whether the name of a `<source>` suggests that it holds the attribute.
    pub open spec fn suggested_by(self, name: Seq<char>) -> bool {
        match self {
            Attribute::Normal => contains_text(name, "Nrm"@) || contains_text(name, "Normal"@)
                || contains_text(name, "normal"@),
            Attribute::TexCoord => contains_text(name, "UV"@) || contains_text(name, "TexCoord"@)
                || contains_text(name, "TextureCoordinate"@) || contains_text(name, "uv"@),
        }
    }

    /// The semantic by which an `<input>` announces the attribute.
    pub fn semantic_name(self) -> (r: &'static str)
        ensures
            r@ == self.semantic(),
    {
        match self {
            Attribute::Normal => "NORMAL",
            Attribute::TexCoord => "TEXCOORD",
        }
    }

    /// How many numbers make one entry.
    pub fn entry_width(self) -> (r: usize)
        ensures
            r == self.width(),
    {
        match self {
            Attribute::Normal => 3,
            Attribute::TexCoord => 2,
        }
    }

    /// Whether the name of a `<source>` suggests that it holds the
    /// attribute.
    pub fn suggests(self, name: &str) -> (r: bool)
        ensures
            r == self.suggested_by(name@),
    {
        match self {
            Attribute::Normal => text_contains(name, "Nrm") || text_contains(name, "Normal")
                || text_contains(name, "normal"),
            Attribute::TexCoord => text_contains(name, "UV") || text_contains(name, "TexCoord")
                || text_contains(name, "TextureCoordinate") || text_contains(name, "uv"),
        }
    }
}

/// Whether the attribute `key` of `e` is there and reads `value`.
pub open spec fn attribute_is(e: XmlElement, key: Seq<char>, value: Seq<char>) -> bool {
    match e.attribute(key) {
        Some(v) => v@ == value,
        None => false,
    }
}

/// The numbers in the `<float_array>` of a source, if each word of its text
/// is a number.
pub open spec fn source_values(source: XmlElement) -> Option<Seq<Scalar>> {
    match source.child("float_array"@) {
        Some(array) => match array.text() {
            Some(t) => strict_scalars(t.scalars@),
            None => None,
        },
        None => None,
    }
}

/// The first of `elements` whose attribute `key` reads `value`.
pub open spec fn first_with(elements: Seq<XmlElement>, key: Seq<char>, value: Seq<char>) -> Option<
    XmlElement,
>
    decreases elements.len(),
{
    if elements.len() == 0 {
        None
    } else if attribute_is(elements[0], key, value) {
        Some(elements[0])
    } else {
        first_with(elements.drop_first(), key, value)
    }
}

/// The numbers of the source that `input` points to among the sources of
/// `mesh`; empty where the reference or the numbers cannot be had.
pub open spec fn input_values(mesh: XmlElement, input: XmlElement) -> Seq<Scalar> {
    match input.attribute("source"@) {
        Some(reference) => match first_with(
            mesh.children_named("source"@),
            "id"@,
            without_leading(reference@, '#'),
        ) {
            Some(source) => match source_values(source) {
                Some(values) => values,
                None => Seq::empty(),
            },
            None => Seq::empty(),
        },
        None => Seq::empty(),
    }
}

/// The numbers behind the positions of a mesh: those that the first input
/// of `<vertices>` points to, if its semantic is `POSITION`.
pub open spec fn position_values(mesh: XmlElement) -> Seq<Scalar> {
    match mesh.child("vertices"@) {
        Some(vertices) => match vertices.child("input"@) {
            Some(input) => if attribute_is(input, "semantic"@, "POSITION"@) {
                input_values(mesh, input)
            } else {
                Seq::empty()
            },
            None => Seq::empty(),
        },
        None => Seq::empty(),
    }
}

/// The positions of a mesh.
pub open spec fn mesh_positions(mesh: XmlElement) -> Seq<Vec3> {
    triples(position_values(mesh))
}

/// The numbers that one `<triangles>` element gives for an attribute,
/// through its first input of that semantic.
pub open spec fn primitive_values(mesh: XmlElement, primitive: XmlElement, kind: Attribute) -> Seq<
    Scalar,
> {
    match first_with(primitive.children_named("input"@), "semantic"@, kind.semantic()) {
        Some(input) => input_values(mesh, input),
        None => Seq::empty(),
    }
}

/// The numbers of the first of `primitives` that gives at least one whole
/// entry of the attribute.
pub open spec fn first_primitive_values(
    mesh: XmlElement,
    primitives: Seq<XmlElement>,
    kind: Attribute,
) -> Seq<Scalar>
    decreases primitives.len(),
{
    if primitives.len() == 0 {
        Seq::empty()
    } else {
        let values = primitive_values(mesh, primitives[0], kind);
        if values.len() >= kind.width() {
            values
        } else {
            first_primitive_values(mesh, primitives.drop_first(), kind)
        }
    }
}

/// The stride that a source declares in its accessor, or `default`.
pub open spec fn declared_stride(source: XmlElement, default: usize) -> usize {
    match source.child("technique_common"@) {
        Some(technique) => match technique.child("accessor"@) {
            Some(accessor) => match accessor.attribute("stride"@) {
                Some(s) => match usize_text(s@) {
                    Some(n) => n,
                    None => default,
                },
                None => default,
            },
            None => default,
        },
        None => default,
    }
}

/// Whether a source can stand in for the attribute: its name suggests so,
/// its numbers can be read, and its stride is the width of an entry.
pub open spec fn stands_in(source: XmlElement, kind: Attribute) -> bool {
    &&& match source.attribute("name"@) {
        Some(name) => kind.suggested_by(name@),
        None => false,
    }
    &&& source_values(source) is Some
    &&& declared_stride(source, kind.width() as usize) == kind.width()
}

/// The numbers of the first of `sources` that can stand in for the
/// attribute.
pub open spec fn stand_in_values(sources: Seq<XmlElement>, kind: Attribute) -> Seq<Scalar>
    decreases sources.len(),
{
    if sources.len() == 0 {
        Seq::empty()
    } else if stands_in(sources[0], kind) {
        source_values(sources[0])->0
    } else {
        stand_in_values(sources.drop_first(), kind)
    }
}

/// The numbers behind an attribute of a mesh: what its `<triangles>` give,
/// or else what a source with a telling name gives.
pub open spec fn attribute_values(mesh: XmlElement, kind: Attribute) -> Seq<Scalar> {
    let given = first_primitive_values(mesh, mesh.children_named("triangles"@), kind);
    if given.len() >= kind.width() {
        given
    } else {
        stand_in_values(mesh.children_named("source"@), kind)
    }
}

/// The normals of a mesh.
pub open spec fn mesh_normals(mesh: XmlElement) -> Seq<Vec3> {
    triples(attribute_values(mesh, Attribute::Normal))
}

/// The texture coordinates of a mesh.
pub open spec fn mesh_uvs(mesh: XmlElement) -> Seq<Vec2> {
    pairs(attribute_values(mesh, Attribute::TexCoord))
}

/// Whether an input carries the vertex positions.
pub open spec fn is_position_input(input: XmlElement) -> bool {
    attribute_is(input, "semantic"@, "VERTEX"@) || attribute_is(input, "semantic"@, "POSITION"@)
}

/// The offset that an input declares, 0 where it declares none that can be
/// read.
pub open spec fn declared_offset(input: XmlElement) -> usize {
    match input.attribute("offset"@) {
        Some(o) => match usize_text(o@) {
            Some(n) => n,
            None => 0,
        },
        None => 0,
    }
}

/// The offset of the position channel among the inputs of a primitive: that
/// of the first input which carries positions, 0 where there is none.
pub open spec fn position_offset(inputs: Seq<XmlElement>) -> usize
    decreases inputs.len(),
{
    if inputs.len() == 0 {
        0
    } else if is_position_input(inputs[0]) {
        declared_offset(inputs[0])
    } else {
        position_offset(inputs.drop_first())
    }
}

/// The position indices of one `<triangles>` element: of the interleaved
/// stream `<p>`, whose stride is the number of inputs, the channel at the
/// position offset; the whole stream where there is no input.
pub open spec fn primitive_indices(primitive: XmlElement) -> Seq<u32> {
    let inputs = primitive.children_named("input"@);
    match primitive.child("p"@) {
        Some(p) => match p.text() {
            Some(t) => match u32_words(t.text@) {
                Some(values) => if inputs.len() > 0 {
                    strided(values, position_offset(inputs) as nat, inputs.len())
                } else {
                    values
                },
                None => Seq::empty(),
            },
            None => Seq::empty(),
        },
        None => Seq::empty(),
    }
}

/// The position indices of all of `primitives`, one after the other.
pub open spec fn all_primitive_indices(primitives: Seq<XmlElement>) -> Seq<u32>
    decreases primitives.len(),
{
    if primitives.len() == 0 {
        Seq::empty()
    } else {
        all_primitive_indices(primitives.drop_last()) + primitive_indices(primitives.last())
    }
}

/// The indices of a mesh.
pub open spec fn mesh_indices(mesh: XmlElement) -> Seq<u32> {
    all_primitive_indices(mesh.children_named("triangles"@))
}

/// Whether the attribute `key` of `e` is there and reads `value`.
pub fn has_attribute_value(e: &XmlElement, key: &str, value: &str) -> (r: bool)
    ensures
        r == attribute_is(*e, key@, value@),
{
    match get_attribute(e, key) {
        Some(v) => text_eq(v.as_str(), value),
        None => false,
    }
}

/// The numbers in the `<float_array>` of a source.
pub fn read_source_values(source: &XmlElement) -> (r: Option<Vec<Scalar>>)
    ensures
        optional_view(r) == source_values(*source),
{
    match find_child(source, "float_array") {
        Some(array) => match get_element_text(array) {
            Some(t) => read_all_scalars(t),
            None => None,
        },
        None => None,
    }
}

/// The first of `elements` whose attribute `key` reads `value`.
pub fn find_first_with<'a>(elements: &Vec<&'a XmlElement>, key: &str, value: &str) -> (r: Option<
    &'a XmlElement,
>)
    ensures
        owned(r) == first_with(all_owned(elements@), key@, value@),
{
    let ghost all = all_owned(elements@);
    let n = elements.len();
    let mut i: usize = 0;
    proof {
        assert(all.skip(0) =~= all);
    }
    while i < n
        invariant
            i <= n,
            n == elements@.len(),
            all == all_owned(elements@),
            first_with(all, key@, value@) == first_with(all.skip(i as int), key@, value@),
        decreases n - i,
    {
        proof {
            assert(all.skip(i as int).drop_first() =~= all.skip(i + 1));
            assert(all.skip(i as int)[0] == *elements@[i as int]);
        }
        if has_attribute_value(elements[i], key, value) {
            return Some(elements[i]);
        }
        i += 1;
    }
    None
}

/// The numbers of the source that `input` points to among the sources of
/// `mesh`.
pub fn read_input_values(mesh: &XmlElement, input: &XmlElement) -> (r: Vec<Scalar>)
    ensures
        r@ == input_values(*mesh, *input),
{
    match get_attribute(input, "source") {
        Some(reference) => {
            let id = strip_leading(reference.as_str(), '#');
            let sources = find_all_children(mesh, "source");
            match find_first_with(&sources, "id", id.as_str()) {
                Some(source) => match read_source_values(source) {
                    Some(values) => values,
                    None => Vec::new(),
                },
                None => Vec::new(),
            }
        },
        None => Vec::new(),
    }
}

/// The positions of a mesh.
pub fn extract_vertices_from_xml_mesh(mesh_elem: &XmlElement) -> (r: Vec<Vec3>)
    ensures
        r@ == mesh_positions(*mesh_elem),
{
    let values = match find_child(mesh_elem, "vertices") {
        Some(vertices) => match find_child(vertices, "input") {
            Some(input) => if has_attribute_value(input, "semantic", "POSITION") {
                read_input_values(mesh_elem, input)
            } else {
                Vec::new()
            },
            None => Vec::new(),
        },
        None => Vec::new(),
    };
    group_triples(&values)
}

fn read_primitive_values(mesh: &XmlElement, primitive: &XmlElement, kind: Attribute) -> (r: Vec<
    Scalar,
>)
    ensures
        r@ == primitive_values(*mesh, *primitive, kind),
{
    let inputs = find_all_children(primitive, "input");
    match find_first_with(&inputs, "semantic", kind.semantic_name()) {
        Some(input) => read_input_values(mesh, input),
        None => Vec::new(),
    }
}

fn read_first_primitive_values(mesh: &XmlElement, kind: Attribute) -> (r: Vec<Scalar>)
    ensures
        r@ == first_primitive_values(*mesh, mesh.children_named("triangles"@), kind),
{
    let primitives = find_all_children(mesh, "triangles");
    let ghost all = all_owned(primitives@);
    let n = primitives.len();
    let mut i: usize = 0;
    proof {
        assert(all.skip(0) =~= all);
    }
    while i < n
        invariant
            i <= n,
            n == primitives@.len(),
            all == all_owned(primitives@),
            all == mesh.children_named("triangles"@),
            first_primitive_values(*mesh, all, kind) == first_primitive_values(
                *mesh,
                all.skip(i as int),
                kind,
            ),
        decreases n - i,
    {
        proof {
            assert(all.skip(i as int).drop_first() =~= all.skip(i + 1));
            assert(all.skip(i as int)[0] == *primitives@[i as int]);
        }
        let values = read_primitive_values(mesh, primitives[i], kind);
        if values.len() >= kind.entry_width() {
            return values;
        }
        i += 1;
    }
    Vec::new()
}

/// The stride that a source declares in its accessor, or `default`.
pub fn read_declared_stride(source: &XmlElement, default: usize) -> (r: usize)
    ensures
        r == declared_stride(*source, default),
{
    match find_child(source, "technique_common") {
        Some(technique) => match find_child(technique, "accessor") {
            Some(accessor) => match get_attribute(accessor, "stride") {
                Some(s) => match read_usize(s.as_str()) {
                    Some(n) => n,
                    None => default,
                },
                None => default,
            },
            None => default,
        },
        None => default,
    }
}

fn read_stand_in(source: &XmlElement, kind: Attribute) -> (r: Option<Vec<Scalar>>)
    ensures
        r is Some <==> stands_in(*source, kind),
        r is Some ==> r->0@ == source_values(*source)->0,
{
    let named = match get_attribute(source, "name") {
        Some(name) => kind.suggests(name.as_str()),
        None => false,
    };
    if !named {
        return None;
    }
    match read_source_values(source) {
        Some(values) => {
            if read_declared_stride(source, kind.entry_width()) == kind.entry_width() {
                Some(values)
            } else {
                None
            }
        },
        None => None,
    }
}

fn read_stand_in_values(mesh: &XmlElement, kind: Attribute) -> (r: Vec<Scalar>)
    ensures
        r@ == stand_in_values(mesh.children_named("source"@), kind),
{
    let sources = find_all_children(mesh, "source");
    let ghost all = all_owned(sources@);
    let n = sources.len();
    let mut i: usize = 0;
    proof {
        assert(all.skip(0) =~= all);
    }
    while i < n
        invariant
            i <= n,
            n == sources@.len(),
            all == all_owned(sources@),
            all == mesh.children_named("source"@),
            stand_in_values(all, kind) == stand_in_values(all.skip(i as int), kind),
        decreases n - i,
    {
        proof {
            assert(all.skip(i as int).drop_first() =~= all.skip(i + 1));
            assert(all.skip(i as int)[0] == *sources@[i as int]);
        }
        match read_stand_in(sources[i], kind) {
            Some(values) => {
                return values;
            },
            None => {},
        }
        i += 1;
    }
    Vec::new()
}

/// The numbers behind an attribute of a mesh.
pub fn read_attribute_values(mesh: &XmlElement, kind: Attribute) -> (r: Vec<Scalar>)
    ensures
        r@ == attribute_values(*mesh, kind),
{
    let given = read_first_primitive_values(mesh, kind);
    if given.len() >= kind.entry_width() {
        given
    } else {
        read_stand_in_values(mesh, kind)
    }
}

/// The normals of a mesh.
pub fn extract_normals_from_xml_mesh(mesh_elem: &XmlElement) -> (r: Vec<Vec3>)
    ensures
        r@ == mesh_normals(*mesh_elem),
{
    let values = read_attribute_values(mesh_elem, Attribute::Normal);
    group_triples(&values)
}

/// The texture coordinates of a mesh.
pub fn extract_uvs_from_xml_mesh(mesh_elem: &XmlElement) -> (r: Vec<Vec2>)
    ensures
        r@ == mesh_uvs(*mesh_elem),
{
    let values = read_attribute_values(mesh_elem, Attribute::TexCoord);
    group_pairs(&values)
}

fn read_declared_offset(input: &XmlElement) -> (r: usize)
    ensures
        r == declared_offset(*input),
{
    match get_attribute(input, "offset") {
        Some(o) => match read_usize(o.as_str()) {
            Some(n) => n,
            None => 0,
        },
        None => 0,
    }
}

fn read_position_offset(inputs: &Vec<&XmlElement>) -> (r: usize)
    ensures
        r == position_offset(all_owned(inputs@)),
{
    let ghost all = all_owned(inputs@);
    let n = inputs.len();
    let mut i: usize = 0;
    proof {
        assert(all.skip(0) =~= all);
    }
    while i < n
        invariant
            i <= n,
            n == inputs@.len(),
            all == all_owned(inputs@),
            position_offset(all) == position_offset(all.skip(i as int)),
        decreases n - i,
    {
        proof {
            assert(all.skip(i as int).drop_first() =~= all.skip(i + 1));
            assert(all.skip(i as int)[0] == *inputs@[i as int]);
        }
        if has_attribute_value(inputs[i], "semantic", "VERTEX") || has_attribute_value(
            inputs[i],
            "semantic",
            "POSITION",
        ) {
            return read_declared_offset(inputs[i]);
        }
        i += 1;
    }
    0
}

fn read_primitive_indices(primitive: &XmlElement) -> (r: Vec<u32>)
    ensures
        r@ == primitive_indices(*primitive),
{
    let inputs = find_all_children(primitive, "input");
    let offset = read_position_offset(&inputs);
    match find_child(primitive, "p") {
        Some(p) => match get_element_text(p) {
            Some(t) => match read_all_u32(t.text.as_str()) {
                Some(values) => if inputs.len() > 0 {
                    take_strided(&values, offset, inputs.len())
                } else {
                    values
                },
                None => Vec::new(),
            },
            None => Vec::new(),
        },
        None => Vec::new(),
    }
}

/// The indices of a mesh.
pub fn extract_indices_from_xml_mesh(mesh_elem: &XmlElement) -> (r: Vec<u32>)
    ensures
        r@ == mesh_indices(*mesh_elem),
{
    let primitives = find_all_children(mesh_elem, "triangles");
    let ghost all = all_owned(primitives@);
    let mut out: Vec<u32> = Vec::new();
    let n = primitives.len();
    let mut i: usize = 0;
    proof {
        assert(all.take(0) =~= Seq::<XmlElement>::empty());
    }
    while i < n
        invariant
            i <= n,
            n == primitives@.len(),
            all == all_owned(primitives@),
            out@ == all_primitive_indices(all.take(i as int)),
        decreases n - i,
    {
        proof {
            assert(all.take(i + 1).drop_last() =~= all.take(i as int));
            assert(all.take(i + 1).last() == *primitives@[i as int]);
        }
        let mut part = read_primitive_indices(primitives[i]);
        out.append(&mut part);
        i += 1;
    }
    proof {
        assert(all.take(n as int) =~= all);
    }
    out
}

} // verus!
