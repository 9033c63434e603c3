//! The `<asset>` and `<source>` elements of a COLLADA document.

use vstd::prelude::*;
use vstd::string::StringExecFns;
use crate::collada::ids::{array_id, decimal, join_words, reference, spaced};
use crate::collada::scene::DaeExportConfig;
use crate::model::{UpAxisConversion, Vec2, Vec3};
use crate::scalar::Scalar;
use crate::text::{decimal_digits, texts};
use crate::xml::{
    element_model,
    empty_element,
    with_attribute,
    with_child,
    with_numbers,
    with_text,
    ElementModel,
    XmlElement,
};

verus! {

/// The name of an up axis in a document. A scene that is not turned counts
/// as Y-up.
pub open spec fn up_axis_name(axis: UpAxisConversion) -> Seq<char> {
    match axis {
        UpAxisConversion::ZUp => "Z_UP"@,
        UpAxisConversion::YUp => "Y_UP"@,
        UpAxisConversion::NoConversion => "Y_UP"@,
    }
}

/// The `<asset>` element: the up axis.
pub open spec fn asset_element(axis: UpAxisConversion) -> ElementModel {
    with_child(empty_element("asset"@), with_text(empty_element("up_axis"@), up_axis_name(axis)))
}

/// The `<asset>` element of a document.
pub fn build_asset(config: &DaeExportConfig) -> (r: XmlElement)
    ensures
        element_model(r) == asset_element(config.up_axis),
{
    let mut asset = XmlElement::new("asset");
    let mut up_axis = XmlElement::new("up_axis");
    let name = match config.up_axis {
        UpAxisConversion::ZUp => "Z_UP",
        UpAxisConversion::YUp => "Y_UP",
        UpAxisConversion::NoConversion => "Y_UP",
    };
    up_axis.add_text(name.to_owned());
    asset.add_child(up_axis);
    asset
}

/// A `<param>` element.
pub open spec fn param_element(name: Seq<char>, kind: Seq<char>) -> ElementModel {
    with_attribute(with_attribute(empty_element("param"@), "name"@, name), "type"@, kind)
}

fn build_param(name: &str, kind: &str) -> (r: XmlElement)
    ensures
        element_model(r) == param_element(name@, kind@),
{
    let mut p = XmlElement::new("param");
    p.set_attribute("name", name.to_owned());
    p.set_attribute("type", kind.to_owned());
    p
}

/// An accessor with the parameters that go with a stride: `S` and `T` for
/// two numbers, `X`, `Y` and `Z` for three, none for any other.
pub open spec fn with_params(accessor: ElementModel, stride: nat) -> ElementModel {
    if stride == 2 {
        with_child(
            with_child(accessor, param_element("S"@, "float"@)),
            param_element("T"@, "float"@),
        )
    } else if stride == 3 {
        with_child(
            with_child(
                with_child(accessor, param_element("X"@, "float"@)),
                param_element("Y"@, "float"@),
            ),
            param_element("Z"@, "float"@),
        )
    } else {
        accessor
    }
}

/// The accessor of a source: it points to the array of the source and says
/// how many entries of which stride the array holds.
pub open spec fn accessor_element(id: Seq<char>, count: nat, stride: nat) -> ElementModel {
    with_attribute(
        with_attribute(
            with_attribute(empty_element("accessor"@), "source"@, "#"@ + id + "-array"@),
            "count"@,
            decimal_digits(count),
        ),
        "stride"@,
        decimal_digits(stride),
    )
}

/// A `<source>` of numbers: a `<float_array>` with all of them, and an
/// accessor that reads them `stride` at a time.
pub open spec fn float_source(id: Seq<char>, data: Seq<Scalar>, stride: nat) -> ElementModel {
    with_child(
        with_child(
            with_attribute(empty_element("source"@), "id"@, id),
            with_numbers(
                with_attribute(
                    with_attribute(empty_element("float_array"@), "id"@, id + "-array"@),
                    "count"@,
                    decimal_digits(data.len()),
                ),
                data,
            ),
        ),
        with_child(
            empty_element("technique_common"@),
            with_params(accessor_element(id, data.len() / stride, stride), stride),
        ),
    )
}

fn build_accessor(id: &str, count: usize, stride: usize) -> (r: XmlElement)
    ensures
        element_model(r) == accessor_element(id@, count as nat, stride as nat),
{
    let mut accessor = XmlElement::new("accessor");
    let array = array_id(id);
    let target = reference(array.as_str());
    proof {
        assert("#"@ + (id@ + "-array"@) =~= "#"@ + id@ + "-array"@);
    }
    accessor.set_attribute("source", target);
    accessor.set_attribute("count", decimal(count));
    accessor.set_attribute("stride", decimal(stride));
    accessor
}

/// A `<source>` of numbers.
pub fn build_source_float_array(id: &str, flat_data: &Vec<Scalar>, stride: usize) -> (r:
    XmlElement)
    requires
        stride > 0,
    ensures
        element_model(r) == float_source(id@, flat_data@, stride as nat),
{
    let mut source = XmlElement::new("source");
    source.set_attribute("id", id.to_owned());
    let mut float_array = XmlElement::new("float_array");
    float_array.set_attribute("id", array_id(id));
    float_array.set_attribute("count", decimal(flat_data.len()));
    float_array.add_numbers(flat_data);
    source.add_child(float_array);
    let mut technique = XmlElement::new("technique_common");
    let mut accessor = build_accessor(id, flat_data.len() / stride, stride);
    if stride == 2 {
        accessor.add_child(build_param("S", "float"));
        accessor.add_child(build_param("T", "float"));
    } else if stride == 3 {
        accessor.add_child(build_param("X", "float"));
        accessor.add_child(build_param("Y", "float"));
        accessor.add_child(build_param("Z", "float"));
    }
    technique.add_child(accessor);
    source.add_child(technique);
    source
}

/// The numbers of a list of vectors of three, one after the other.
pub open spec fn flat3(data: Seq<Vec3>) -> Seq<Scalar>
    decreases data.len(),
{
    if data.len() == 0 {
        Seq::empty()
    } else {
        flat3(data.drop_last()) + seq![data.last()[0], data.last()[1], data.last()[2]]
    }
}

/// The numbers of a list of vectors of two, one after the other.
pub open spec fn flat2(data: Seq<Vec2>) -> Seq<Scalar>
    decreases data.len(),
{
    if data.len() == 0 {
        Seq::empty()
    } else {
        flat2(data.drop_last()) + seq![data.last()[0], data.last()[1]]
    }
}

/// The numbers of one matrix of sixteen.
pub open spec fn matrix_numbers(m: [Scalar; 16]) -> Seq<Scalar> {
    Seq::new(16, |i: int| m[i])
}

/// The numbers of a list of matrices, one after the other.
pub open spec fn flat16(data: Seq<[Scalar; 16]>) -> Seq<Scalar>
    decreases data.len(),
{
    if data.len() == 0 {
        Seq::empty()
    } else {
        flat16(data.drop_last()) + matrix_numbers(data.last())
    }
}

fn flatten_vec3(data: &Vec<Vec3>) -> (r: Vec<Scalar>)
    ensures
        r@ == flat3(data@),
{
    let mut out: Vec<Scalar> = Vec::new();
    let n = data.len();
    let mut i: usize = 0;
    proof {
        assert(data@.take(0) =~= Seq::<Vec3>::empty());
    }
    while i < n
        invariant
            i <= n,
            n == data@.len(),
            out@ == flat3(data@.take(i as int)),
        decreases n - i,
    {
        proof {
            assert(data@.take(i + 1).drop_last() =~= data@.take(i as int));
            assert(data@.take(i + 1).last() == data@[i as int]);
        }
        let ghost prev = out@;
        out.push(data[i][0]);
        out.push(data[i][1]);
        out.push(data[i][2]);
        proof {
            assert(out@ =~= prev + seq![data@[i as int][0], data@[i as int][1], data@[i as int][2]]);
        }
        i += 1;
    }
    proof {
        assert(data@.take(n as int) =~= data@);
    }
    out
}

fn flatten_vec2(data: &Vec<Vec2>) -> (r: Vec<Scalar>)
    ensures
        r@ == flat2(data@),
{
    let mut out: Vec<Scalar> = Vec::new();
    let n = data.len();
    let mut i: usize = 0;
    proof {
        assert(data@.take(0) =~= Seq::<Vec2>::empty());
    }
    while i < n
        invariant
            i <= n,
            n == data@.len(),
            out@ == flat2(data@.take(i as int)),
        decreases n - i,
    {
        proof {
            assert(data@.take(i + 1).drop_last() =~= data@.take(i as int));
            assert(data@.take(i + 1).last() == data@[i as int]);
        }
        let ghost prev = out@;
        out.push(data[i][0]);
        out.push(data[i][1]);
        proof {
            assert(out@ =~= prev + seq![data@[i as int][0], data@[i as int][1]]);
        }
        i += 1;
    }
    proof {
        assert(data@.take(n as int) =~= data@);
    }
    out
}

pub(crate) fn matrix_list(m: &[Scalar; 16]) -> (r: Vec<Scalar>)
    ensures
        r@ == matrix_numbers(*m),
{
    let mut out: Vec<Scalar> = Vec::new();
    let mut k: usize = 0;
    while k < 16
        invariant
            k <= 16,
            out@ == matrix_numbers(*m).take(k as int),
        decreases 16 - k,
    {
        out.push(m[k]);
        proof {
            assert(out@ =~= matrix_numbers(*m).take(k + 1));
        }
        k += 1;
    }
    proof {
        assert(matrix_numbers(*m).take(16) =~= matrix_numbers(*m));
    }
    out
}

fn flatten_matrices(data: &[[Scalar; 16]]) -> (r: Vec<Scalar>)
    ensures
        r@ == flat16(data@),
{
    let mut out: Vec<Scalar> = Vec::new();
    let n = data.len();
    let mut i: usize = 0;
    proof {
        assert(data@.take(0) =~= Seq::<[Scalar; 16]>::empty());
    }
    while i < n
        invariant
            i <= n,
            n == data@.len(),
            out@ == flat16(data@.take(i as int)),
        decreases n - i,
    {
        proof {
            assert(data@.take(i + 1).drop_last() =~= data@.take(i as int));
            assert(data@.take(i + 1).last() == data@[i as int]);
        }
        let mut part = matrix_list(&data[i]);
        out.append(&mut part);
        i += 1;
    }
    proof {
        assert(data@.take(n as int) =~= data@);
    }
    out
}

/// A `<source>` of vectors of three numbers.
pub fn build_source_float_vec3(id: &str, data: &Vec<Vec3>) -> (r: XmlElement)
    ensures
        element_model(r) == float_source(id@, flat3(data@), 3),
{
    let flat = flatten_vec3(data);
    build_source_float_array(id, &flat, 3)
}

/// A `<source>` of vectors of two numbers.
pub fn build_source_float_vec2(id: &str, data: &Vec<Vec2>) -> (r: XmlElement)
    ensures
        element_model(r) == float_source(id@, flat2(data@), 2),
{
    let flat = flatten_vec2(data);
    build_source_float_array(id, &flat, 2)
}

/// A `<source>` of matrices of sixteen numbers.
pub fn build_source_mat4_array(id: &str, matrices: &[[Scalar; 16]]) -> (r: XmlElement)
    ensures
        element_model(r) == float_source(id@, flat16(matrices@), 16),
{
    let flat = flatten_matrices(matrices);
    build_source_float_array(id, &flat, 16)
}

/// A `<source>` of names: a `<Name_array>` with all of them, and an accessor
/// that reads them one at a time as joints.
pub open spec fn name_source(id: Seq<char>, names: Seq<Seq<char>>) -> ElementModel {
    with_child(
        with_child(
            with_attribute(empty_element("source"@), "id"@, id),
            with_text(
                with_attribute(
                    with_attribute(empty_element("Name_array"@), "id"@, id + "-array"@),
                    "count"@,
                    decimal_digits(names.len()),
                ),
                spaced(names),
            ),
        ),
        with_child(
            empty_element("technique_common"@),
            with_child(accessor_element(id, names.len(), 1), param_element("JOINT"@, "name"@)),
        ),
    )
}

/// A `<source>` of names.
pub fn build_source_name_array(id: &str, names: &Vec<String>) -> (r: XmlElement)
    ensures
        element_model(r) == name_source(id@, texts(names@)),
{
    let mut source = XmlElement::new("source");
    source.set_attribute("id", id.to_owned());
    let mut name_array = XmlElement::new("Name_array");
    name_array.set_attribute("id", array_id(id));
    name_array.set_attribute("count", decimal(names.len()));
    name_array.add_text(join_words(names));
    source.add_child(name_array);
    let mut technique = XmlElement::new("technique_common");
    let mut accessor = build_accessor(id, names.len(), 1);
    accessor.add_child(build_param("JOINT", "name"));
    technique.add_child(accessor);
    source.add_child(technique);
    source
}

} // verus!
