use dae_scene::error::{DaeError, OutputKind};
use dae_scene::model::{ConvertedFiles, DaeMesh, DaeScene, UpAxisConversion};
use dae_scene::scalar::Scalar;
use dae_scene::validate::{validate_converted_files, validate_dae_scene, FilesOnDisk};

fn vertex() -> [Scalar; 3] {
    [Scalar::zero(), Scalar::zero(), Scalar::zero()]
}

fn mesh(name: &str, vertices: usize, indices: Vec<u32>) -> DaeMesh {
    DaeMesh {
        name: name.to_string(),
        vertices: vec![vertex(); vertices],
        normals: vec![],
        uvs: vec![],
        indices,
        material_name: None,
        bone_influences: vec![],
    }
}

fn scene(meshes: Vec<DaeMesh>) -> DaeScene {
    DaeScene { meshes, materials: vec![], bones: vec![], up_axis: UpAxisConversion::YUp }
}

#[test]
fn a_sound_scene_passes() {
    let s = scene(vec![mesh("a", 3, vec![0, 1, 2]), mesh("b", 4, vec![0, 1, 2, 1, 2, 3])]);
    assert_eq!(validate_dae_scene(&s), Ok(()));
}

#[test]
fn a_scene_without_meshes_fails() {
    assert_eq!(validate_dae_scene(&scene(vec![])), Err(DaeError::NoMeshes));
}

#[test]
fn a_mesh_without_vertices_fails() {
    let s = scene(vec![mesh("a", 3, vec![0, 1, 2]), mesh("hollow", 0, vec![0, 1, 2])]);
    assert_eq!(
        validate_dae_scene(&s),
        Err(DaeError::MeshWithoutVertices { mesh_name: "hollow".to_string(), mesh_index: 1 })
    );
}

#[test]
fn a_mesh_without_indices_fails() {
    let s = scene(vec![mesh("points", 3, vec![])]);
    assert_eq!(
        validate_dae_scene(&s),
        Err(DaeError::MeshWithoutIndices { mesh_name: "points".to_string(), mesh_index: 0 })
    );
}

#[test]
fn the_first_index_out_of_bounds_is_reported() {
    let s = scene(vec![mesh("m", 3, vec![0, 1, 2, 1, 7, 9])]);
    assert_eq!(
        validate_dae_scene(&s),
        Err(DaeError::IndexOutOfBounds {
            mesh_name: "m".to_string(),
            mesh_index: 0,
            index_value: 7,
            position: 4,
            vertex_count: 3,
        })
    );
}

#[test]
fn an_index_count_that_is_no_multiple_of_three_fails() {
    let s = scene(vec![mesh("m", 3, vec![0, 1, 2, 1])]);
    assert_eq!(
        validate_dae_scene(&s),
        Err(DaeError::IndexCountNotTriangles { mesh_name: "m".to_string(), mesh_index: 0, index_count: 4 })
    );
}

#[test]
fn the_first_faulty_mesh_decides() {
    let s = scene(vec![mesh("a", 3, vec![0, 1]), mesh("b", 0, vec![])]);
    assert_eq!(
        validate_dae_scene(&s),
        Err(DaeError::IndexCountNotTriangles { mesh_name: "a".to_string(), mesh_index: 0, index_count: 2 })
    );
}

fn files(model: Option<&str>, mesh: Option<&str>, material: Option<&str>) -> ConvertedFiles {
    ConvertedFiles {
        numdlb_path: model.map(|p| p.to_string()),
        numshb_path: mesh.map(|p| p.to_string()),
        numatb_path: material.map(|p| p.to_string()),
        nusktb_path: None,
    }
}

const ALL: FilesOnDisk = FilesOnDisk { numdlb: true, numshb: true, numatb: true, nusktb: true };

const NONE: FilesOnDisk = FilesOnDisk { numdlb: false, numshb: false, numatb: false, nusktb: false };

fn with_skeleton(mut f: ConvertedFiles, path: &str) -> ConvertedFiles {
    f.nusktb_path = Some(path.to_string());
    f
}

#[test]
fn a_complete_record_with_all_files_on_disk_passes() {
    assert_eq!(validate_converted_files(&files(Some("a.numdlb"), Some("a.numshb"), Some("a.numatb")), ALL), Ok(()));
    let f = with_skeleton(files(Some("a.numdlb"), Some("a.numshb"), Some("a.numatb")), "a.nusktb");
    assert_eq!(validate_converted_files(&f, ALL), Ok(()));
}

#[test]
fn a_missing_model_or_mesh_entry_is_reported_by_kind() {
    assert_eq!(
        validate_converted_files(&files(None, None, None), ALL),
        Err(DaeError::OutputNotCreated { kind: OutputKind::Model })
    );
    assert_eq!(
        validate_converted_files(&files(Some("a.numdlb"), None, None), ALL),
        Err(DaeError::OutputNotCreated { kind: OutputKind::Mesh })
    );
}

#[test]
fn a_file_that_was_never_named_is_not_asked_for() {
    let f = files(Some("a.numdlb"), Some("a.numshb"), None);
    assert_eq!(validate_converted_files(&f, ALL), Ok(()));
    assert_eq!(
        validate_converted_files(&f, FilesOnDisk { numdlb: true, numshb: true, numatb: false, nusktb: false }),
        Ok(())
    );
}

#[test]
fn a_file_that_is_not_on_disk_is_reported_by_path() {
    let f = with_skeleton(files(Some("a.numdlb"), Some("a.numshb"), Some("a.numatb")), "a.nusktb");
    assert_eq!(
        validate_converted_files(&f, FilesOnDisk { numdlb: false, numshb: false, numatb: true, nusktb: true }),
        Err(DaeError::OutputMissing { path: "a.numdlb".to_string() })
    );
    assert_eq!(
        validate_converted_files(&f, FilesOnDisk { numdlb: true, numshb: false, numatb: false, nusktb: false }),
        Err(DaeError::OutputMissing { path: "a.numshb".to_string() })
    );
    assert_eq!(
        validate_converted_files(&f, FilesOnDisk { numdlb: true, numshb: true, numatb: false, nusktb: false }),
        Err(DaeError::OutputMissing { path: "a.numatb".to_string() })
    );
    assert_eq!(
        validate_converted_files(&f, FilesOnDisk { numdlb: true, numshb: true, numatb: true, nusktb: false }),
        Err(DaeError::OutputMissing { path: "a.nusktb".to_string() })
    );
}

#[test]
fn a_named_skeleton_file_that_is_not_on_disk_fails_the_check() {
    let f = with_skeleton(files(Some("out/m.numdlb"), Some("out/m.numshb"), None), "out/m.nusktb");
    assert_eq!(
        validate_converted_files(&f, FilesOnDisk { numdlb: true, numshb: true, numatb: false, nusktb: false }),
        Err(DaeError::OutputMissing { path: "out/m.nusktb".to_string() })
    );
    assert_eq!(
        validate_converted_files(&f, FilesOnDisk { numdlb: true, numshb: true, numatb: false, nusktb: true }),
        Ok(())
    );
}

#[test]
fn a_missing_entry_counts_before_a_missing_file() {
    assert_eq!(
        validate_converted_files(&files(Some("a.numdlb"), None, Some("a.numatb")), NONE),
        Err(DaeError::OutputNotCreated { kind: OutputKind::Mesh })
    );
}

#[test]
fn the_default_record_is_empty() {
    let f = ConvertedFiles::default();
    assert_eq!(f, files(None, None, None));
}

#[test]
fn every_error_has_its_message() {
    let cases: Vec<(DaeError, &str)> = vec![
        (DaeError::MalformedXml { detail: "1:5 Unexpected end".to_string() }, "Failed to parse DAE XML: 1:5 Unexpected end"),
        (DaeError::NoRootElement, "Failed to parse DAE XML: no root element"),
        (DaeError::NoMeshes, "DAE file contains no valid meshes"),
        (DaeError::MeshWithoutVertices { mesh_name: "arm".to_string(), mesh_index: 2 }, "Mesh 'arm' (index 2) has no vertices"),
        (DaeError::MeshWithoutIndices { mesh_name: "arm".to_string(), mesh_index: 10 }, "Mesh 'arm' (index 10) has no indices"),
        (
            DaeError::IndexOutOfBounds { mesh_name: "m".to_string(), mesh_index: 0, index_value: 7, position: 4, vertex_count: 3 },
            "Mesh 'm' (index 0) has out-of-bounds index: 7 at position 4 (max valid index: 2, vertex count: 3)",
        ),
        (
            DaeError::IndexOutOfBounds { mesh_name: "m".to_string(), mesh_index: 0, index_value: 0, position: 0, vertex_count: 0 },
            "Mesh 'm' (index 0) has out-of-bounds index: 0 at position 0 (max valid index: 0, vertex count: 0)",
        ),
        (
            DaeError::IndexCountNotTriangles { mesh_name: "m".to_string(), mesh_index: 1, index_count: 4 },
            "Mesh 'm' (index 1) has invalid index count: 4 (must be divisible by 3 for triangles)",
        ),
        (DaeError::NoMeshObjects, "No valid mesh objects were created from DAE data"),
        (DaeError::VectorsMismatch { meshes: 2, vectors: 1 }, "1 sets of vectors were computed for 2 meshes"),
        (DaeError::VectorsUnfit { mesh_index: 3, vertices: 24 }, "The vectors computed for mesh 3 are not one for each of its 24 vertices"),
        (DaeError::SkinsMismatch { objects: 3, skins: 0 }, "0 sets of joints and weights were computed for 3 mesh objects"),
        (DaeError::BlendListsMismatch { objects: 3, lists: 1 }, "1 lists of blends were computed for 3 mesh objects"),
        (
            DaeError::BlendsMismatch { object_index: 2, vertices: 8, blends: 7 },
            "7 blends were computed for the 8 vertices of mesh object 2",
        ),
        (DaeError::TransformsMismatch { bones: 12, transforms: 11 }, "11 node transforms were computed for 12 bones"),
        (DaeError::MatricesMismatch { bones: 2, matrices: 5 }, "5 inverse bind matrices were computed for 2 bones"),
        (DaeError::WeightsMismatch { mesh_index: 4 }, "The weights computed for mesh 4 do not fit its influences"),
        (DaeError::NoMeshData, "No mesh data available for DAE export"),
        (DaeError::OutputNotCreated { kind: OutputKind::Model }, "Failed to create .numdlb file"),
        (DaeError::OutputNotCreated { kind: OutputKind::Mesh }, "Failed to create .numshb file"),
        (DaeError::OutputNotCreated { kind: OutputKind::Material }, "Failed to create .numatb file"),
        (DaeError::OutputNotCreated { kind: OutputKind::Skeleton }, "Failed to create .nusktb file"),
        (DaeError::OutputMissing { path: "out/m.numshb".to_string() }, "Generated file does not exist: out/m.numshb"),
        (DaeError::MeshWithoutPositions { mesh_name: "bare".to_string() }, "Mesh 'bare' has no positions"),
    ];
    for (error, message) in cases {
        assert_eq!(error.message(), message);
    }
}
