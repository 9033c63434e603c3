//! The `<geometry>` element of a mesh.

use vstd::prelude::*;
use crate::collada::ids::{
    decimal,
    decimal_words,
    geometry_id,
    join_numbers,
    joined,
    make_numbered_id,
    reference,
    spaced,
};
use crate::collada::scene::JsonMeshObject;
use crate::collada::sources::{
    build_source_float_vec2,
    build_source_float_vec3,
    flat2,
    flat3,
    float_source,
};
use crate::text::decimal_digits;
use crate::xml::{
    element_model,
    empty_element,
    with_attribute,
    with_child,
    with_text,
    ElementModel,
    XmlElement,
};

verus! {

/// An `<input>` element with a semantic and the source it reads.
pub open spec fn input_element(semantic: Seq<char>, source: Seq<char>) -> ElementModel {
    with_attribute(
        with_attribute(empty_element("input"@), "semantic"@, semantic),
        "source"@,
        "#"@ + source,
    )
}

/// An `<input>` element that reads its source at an offset of the index
/// stream.
pub open spec fn offset_input(semantic: Seq<char>, source: Seq<char>, offset: nat) -> ElementModel {
    with_attribute(input_element(semantic, source), "offset"@, decimal_digits(offset))
}

pub(crate) fn build_input(semantic: &str, source: &str) -> (r: XmlElement)
    ensures
        element_model(r) == input_element(semantic@, source@),
{
    let mut input = XmlElement::new("input");
    input.set_attribute("semantic", semantic.to_owned());
    input.set_attribute("source", reference(source));
    input
}

pub(crate) fn build_offset_input(semantic: &str, source: &str, offset: usize) -> (r: XmlElement)
    ensures
        element_model(r) == offset_input(semantic@, source@, offset as nat),
{
    let mut input = build_input(semantic, source);
    input.set_attribute("offset", decimal(offset));
    input
}

/// Each index `times` times over, index by index.
pub open spec fn repeated_indices(indices: Seq<u32>, times: nat) -> Seq<usize>
    decreases indices.len(),
{
    if indices.len() == 0 {
        Seq::empty()
    } else {
        repeated_indices(indices.drop_last(), times) + Seq::new(
            times,
            |k: int| indices.last() as usize,
        )
    }
}

fn repeat_indices(indices: &Vec<u32>, times: usize) -> (r: Vec<usize>)
    ensures
        r@ == repeated_indices(indices@, times as nat),
{
    let mut out: Vec<usize> = Vec::new();
    let n = indices.len();
    let mut i: usize = 0;
    proof {
        assert(indices@.take(0) =~= Seq::<u32>::empty());
    }
    while i < n
        invariant
            i <= n,
            n == indices@.len(),
            out@ == repeated_indices(indices@.take(i as int), times as nat),
        decreases n - i,
    {
        proof {
            assert(indices@.take(i + 1).drop_last() =~= indices@.take(i as int));
            assert(indices@.take(i + 1).last() == indices@[i as int]);
        }
        let ghost prev = out@;
        let value = indices[i] as usize;
        let mut k: usize = 0;
        while k < times
            invariant
                k <= times,
                out@ == prev + Seq::new(k as nat, |j: int| value),
            decreases times - k,
        {
            out.push(value);
            proof {
                assert(out@ =~= prev + Seq::new((k + 1) as nat, |j: int| value));
            }
            k += 1;
        }
        i += 1;
    }
    proof {
        assert(indices@.take(n as int) =~= indices@);
    }
    out
}

/// How many index channels a mesh has: one for its positions, one each for
/// its normals and texture coordinates.
pub open spec fn input_count(m: JsonMeshObject) -> nat {
    (1 + (if m.normals is Some {
        1int
    } else {
        0int
    }) + (if m.texcoords0 is Some {
        1int
    } else {
        0int
    })) as nat
}

/// The `<mesh>` element of a mesh up to its sources: positions, then normals
/// and texture coordinates where the mesh has them.
pub open spec fn mesh_sources(m: JsonMeshObject, id: Seq<char>) -> ElementModel {
    let positions = with_child(
        empty_element("mesh"@),
        float_source(id + "-positions"@, flat3(m.positions@), 3),
    );
    let normals = match m.normals {
        Some(n) => with_child(positions, float_source(id + "-normals"@, flat3(n@), 3)),
        None => positions,
    };
    match m.texcoords0 {
        Some(t) => with_child(normals, float_source(id + "-texcoord0"@, flat2(t@), 2)),
        None => normals,
    }
}

/// The `<vertices>` element of a mesh: its positions.
pub open spec fn vertices_element(id: Seq<char>) -> ElementModel {
    with_child(
        with_attribute(empty_element("vertices"@), "id"@, id + "-vertices"@),
        input_element("POSITION"@, id + "-positions"@),
    )
}

/// The `<triangles>` element of a mesh up to its inputs: the vertices at
/// offset 0, then normals and texture coordinates at the next offsets.
pub open spec fn triangle_inputs(m: JsonMeshObject, id: Seq<char>) -> ElementModel {
    let vertex = with_child(
        with_attribute(
            empty_element("triangles"@),
            "count"@,
            decimal_digits(m.vertex_indices@.len() / 3),
        ),
        offset_input("VERTEX"@, id + "-vertices"@, 0),
    );
    let normal = if m.normals is Some {
        with_child(vertex, offset_input("NORMAL"@, id + "-normals"@, 1))
    } else {
        vertex
    };
    if m.texcoords0 is Some {
        with_child(
            normal,
            with_attribute(
                offset_input(
                    "TEXCOORD"@,
                    id + "-texcoord0"@,
                    if m.normals is Some {
                        2
                    } else {
                        1
                    },
                ),
                "set"@,
                "0"@,
            ),
        )
    } else {
        normal
    }
}

/// The `<triangles>` element of a mesh: its inputs, and in `<p>` each index
/// once for every input.
pub open spec fn triangles_element(m: JsonMeshObject, id: Seq<char>) -> ElementModel {
    with_child(
        triangle_inputs(m, id),
        with_text(
            empty_element("p"@),
            spaced(decimal_words(repeated_indices(m.vertex_indices@, input_count(m)))),
        ),
    )
}

/// The `<geometry>` element of the mesh at position `index`.
pub open spec fn geometry_element(m: JsonMeshObject, index: nat) -> ElementModel {
    let id = geometry_id(index, m.name@);
    with_child(
        with_attribute(with_attribute(empty_element("geometry"@), "id"@, id), "name"@, m.name@),
        with_child(with_child(mesh_sources(m, id), vertices_element(id)), triangles_element(m, id)),
    )
}

/// The `<geometry>` element of the mesh at position `mesh_index`.
pub fn build_geometry_element_json(mesh_object: &JsonMeshObject, mesh_index: usize) -> (r:
    XmlElement)
    ensures
        element_model(r) == geometry_element(*mesh_object, mesh_index as nat),
{
    let geom_id = make_numbered_id("geom_", mesh_index, mesh_object.name.as_str());
    let id = geom_id.as_str();
    let mut geometry = XmlElement::new("geometry");
    geometry.set_attribute("id", geom_id.clone());
    geometry.set_attribute("name", mesh_object.name.clone());
    let pos_source_id = joined(id, "-positions");
    let normal_source_id = joined(id, "-normals");
    let texcoord_source_id = joined(id, "-texcoord0");
    let vertices_id = joined(id, "-vertices");
    let mut mesh = XmlElement::new("mesh");
    mesh.add_child(build_source_float_vec3(pos_source_id.as_str(), &mesh_object.positions));
    match &mesh_object.normals {
        Some(normals) => {
            mesh.add_child(build_source_float_vec3(normal_source_id.as_str(), normals));
        },
        None => {},
    }
    match &mesh_object.texcoords0 {
        Some(uvs) => {
            mesh.add_child(build_source_float_vec2(texcoord_source_id.as_str(), uvs));
        },
        None => {},
    }
    proof {
        assert(element_model(mesh) == mesh_sources(*mesh_object, id@));
    }
    let mut vertices = XmlElement::new("vertices");
    vertices.set_attribute("id", vertices_id.clone());
    vertices.add_child(build_input("POSITION", pos_source_id.as_str()));
    mesh.add_child(vertices);
    let mut input_total: usize = 1;
    let mut triangles = XmlElement::new("triangles");
    triangles.set_attribute("count", decimal(mesh_object.vertex_indices.len() / 3));
    triangles.add_child(build_offset_input("VERTEX", vertices_id.as_str(), 0));
    let mut current_offset: usize = 1;
    if mesh_object.normals.is_some() {
        triangles.add_child(build_offset_input("NORMAL", normal_source_id.as_str(), current_offset));
        current_offset += 1;
        input_total += 1;
    }
    if mesh_object.texcoords0.is_some() {
        let mut input = build_offset_input(
            "TEXCOORD",
            texcoord_source_id.as_str(),
            current_offset,
        );
        input.set_attribute("set", "0".to_owned());
        triangles.add_child(input);
        input_total += 1;
    }
    proof {
        assert(element_model(triangles) == triangle_inputs(*mesh_object, id@));
        assert(input_total == input_count(*mesh_object));
    }
    let mut p = XmlElement::new("p");
    let values = repeat_indices(&mesh_object.vertex_indices, input_total);
    p.add_text(join_numbers(&values));
    triangles.add_child(p);
    mesh.add_child(triangles);
    geometry.add_child(mesh);
    geometry
}

} // verus!
