use dae_scene::model::DaeMesh;
use dae_scene::normalize::{align_attribute_data, optimize_mesh_data};
use dae_scene::scalar::Scalar;

fn s(v: f32) -> Scalar {
    Scalar::from_bits(v.to_bits())
}

fn v3(x: f32, y: f32, z: f32) -> [Scalar; 3] {
    [s(x), s(y), s(z)]
}

fn v2(x: f32, y: f32) -> [Scalar; 2] {
    [s(x), s(y)]
}

fn mesh(vertices: Vec<[Scalar; 3]>, normals: Vec<[Scalar; 3]>, uvs: Vec<[Scalar; 2]>, indices: Vec<u32>) -> DaeMesh {
    DaeMesh {
        name: "m".to_string(),
        vertices,
        normals,
        uvs,
        indices,
        material_name: None,
        bone_influences: Vec::new(),
    }
}

#[test]
fn short_normals_are_padded_and_indices_kept() {
    let mut m = mesh(
        vec![v3(0.0, 0.0, 0.0), v3(1.0, 0.0, 0.0), v3(0.0, 1.0, 0.0), v3(1.0, 1.0, 0.0)],
        vec![v3(0.0, 0.0, 1.0), v3(0.0, 0.0, 1.0)],
        vec![],
        vec![0, 1, 2, 1, 2, 3],
    );
    optimize_mesh_data(&mut m);
    assert_eq!(m.normals.len(), 4);
    assert_eq!(m.normals[0], v3(0.0, 0.0, 1.0));
    assert_eq!(m.normals[1], v3(0.0, 0.0, 1.0));
    assert_eq!(m.normals[2], v3(0.0, 1.0, 0.0));
    assert_eq!(m.normals[3], v3(0.0, 1.0, 0.0));
    assert_eq!(m.indices, vec![0, 1, 2, 1, 2, 3]);
    assert_eq!(m.vertices.len(), 4);
    assert!(m.uvs.is_empty());
}

#[test]
fn invalid_index_drops_the_second_triangle() {
    let mut m = mesh(
        vec![v3(0.0, 0.0, 0.0), v3(1.0, 0.0, 0.0), v3(0.0, 1.0, 0.0)],
        vec![],
        vec![],
        vec![0, 1, 2, 1, 2, 5],
    );
    optimize_mesh_data(&mut m);
    assert_eq!(m.vertices, vec![v3(0.0, 0.0, 0.0), v3(1.0, 0.0, 0.0), v3(0.0, 1.0, 0.0)]);
    assert_eq!(m.indices, vec![0, 1, 2]);
}

#[test]
fn compaction_keeps_only_named_vertices_and_renumbers() {
    let mut m = mesh(
        vec![v3(0.0, 0.0, 0.0), v3(1.0, 0.0, 0.0), v3(2.0, 0.0, 0.0), v3(3.0, 0.0, 0.0), v3(4.0, 0.0, 0.0)],
        vec![v3(0.0, 0.0, 1.0), v3(1.0, 0.0, 1.0), v3(2.0, 0.0, 1.0)],
        vec![v2(0.0, 0.0), v2(0.1, 0.0), v2(0.2, 0.0), v2(0.3, 0.0), v2(0.4, 0.0), v2(0.5, 0.0), v2(0.6, 0.0)],
        vec![4, 9, 1, 3, 4, 1, 7, 3],
    );
    optimize_mesh_data(&mut m);
    assert_eq!(m.vertices, vec![v3(1.0, 0.0, 0.0), v3(3.0, 0.0, 0.0), v3(4.0, 0.0, 0.0)]);
    assert_eq!(m.normals, vec![v3(1.0, 0.0, 1.0), v3(0.0, 1.0, 0.0), v3(0.0, 1.0, 0.0)]);
    assert_eq!(m.uvs, vec![v2(0.1, 0.0), v2(0.3, 0.0), v2(0.4, 0.0)]);
    // 4 9 1 3 4 1 7 3 -> 2 _ 0 1 2 0 _ 1 -> 2 0 1 2 0 1
    assert_eq!(m.indices, vec![2, 0, 1, 2, 0, 1]);
}

#[test]
fn a_trailing_partial_triangle_is_cut_after_compaction() {
    let mut m = mesh(
        vec![v3(0.0, 0.0, 0.0), v3(1.0, 0.0, 0.0)],
        vec![],
        vec![],
        vec![0, 1, 0, 1, 8],
    );
    optimize_mesh_data(&mut m);
    assert_eq!(m.indices, vec![0, 1, 0]);
    assert_eq!(m.indices.len() % 3, 0);
}

#[test]
fn no_valid_index_leaves_an_empty_mesh() {
    let mut m = mesh(vec![v3(0.0, 0.0, 0.0)], vec![v3(0.0, 0.0, 1.0)], vec![], vec![3, 4, 5]);
    optimize_mesh_data(&mut m);
    assert!(m.vertices.is_empty());
    assert!(m.normals.is_empty());
    assert!(m.indices.is_empty());
}

#[test]
fn normalizing_twice_changes_nothing_more() {
    let mut m = mesh(
        vec![v3(0.0, 0.0, 0.0), v3(1.0, 0.0, 0.0), v3(2.0, 0.0, 0.0)],
        vec![v3(0.0, 0.0, 1.0)],
        vec![v2(0.5, 0.5), v2(0.5, 0.5), v2(0.5, 0.5), v2(0.5, 0.5)],
        vec![2, 7, 0, 2],
    );
    optimize_mesh_data(&mut m);
    let once = m.clone();
    optimize_mesh_data(&mut m);
    assert_eq!(m, once);
    for i in &m.indices {
        assert!((*i as usize) < m.vertices.len());
    }
}

#[test]
fn in_bounds_indices_are_kept_even_if_no_whole_triangles() {
    let mut m = mesh(vec![v3(0.0, 0.0, 0.0), v3(1.0, 0.0, 0.0), v3(2.0, 0.0, 0.0)], vec![], vec![], vec![0, 1]);
    optimize_mesh_data(&mut m);
    assert_eq!(m.indices, vec![0, 1]);
}

#[test]
fn long_attribute_lists_are_cut() {
    let mut m = mesh(
        vec![v3(0.0, 0.0, 0.0)],
        vec![v3(0.0, 0.0, 1.0), v3(0.0, 0.0, 2.0)],
        vec![v2(0.5, 0.5), v2(0.7, 0.7)],
        vec![0, 0, 0],
    );
    align_attribute_data(&mut m);
    assert_eq!(m.normals, vec![v3(0.0, 0.0, 1.0)]);
    assert_eq!(m.uvs, vec![v2(0.5, 0.5)]);
}

#[test]
fn short_uvs_are_padded_with_the_origin() {
    let mut m = mesh(vec![v3(0.0, 0.0, 0.0), v3(1.0, 0.0, 0.0)], vec![], vec![v2(0.5, 0.5)], vec![0, 1, 0]);
    align_attribute_data(&mut m);
    assert_eq!(m.uvs, vec![v2(0.5, 0.5), v2(0.0, 0.0)]);
    assert!(m.normals.is_empty());
}

#[test]
fn without_vertices_the_attribute_lists_are_emptied() {
    let mut m = mesh(vec![], vec![v3(0.0, 0.0, 1.0)], vec![v2(0.5, 0.5)], vec![]);
    align_attribute_data(&mut m);
    assert!(m.normals.is_empty());
    assert!(m.uvs.is_empty());
}
