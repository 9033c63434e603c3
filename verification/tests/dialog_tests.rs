use dae_scene::dialog::{
    plan_scene_export,
    DaeConvertDialogState,
    SceneExportConfig,
    SceneExportDialogState,
    SceneParts,
};
use dae_scene::error::OutputKind;
use dae_scene::model::{DaeConvertConfig, UpAxisConversion};
use dae_scene::scalar::Scalar;

#[test]
fn the_default_export_configuration_exports_everything() {
    let c = SceneExportConfig::default();
    assert_eq!(c.base_filename, "model");
    assert!(c.export_mesh && c.export_skeleton && c.export_modl);
    assert_eq!(c.output_directory, "");
    let state = SceneExportDialogState::default();
    assert!(!state.is_open);
    assert_eq!(state.config, c);
}

#[test]
fn the_default_conversion_keeps_scale_and_axes() {
    let c = DaeConvertConfig::default();
    assert_eq!(c.base_filename, "model");
    assert_eq!(c.output_directory, "");
    assert_eq!(f32::from_bits(c.scale_factor.to_bits()), 1.0);
    assert_eq!(c.up_axis_conversion, UpAxisConversion::YUp);
    let state = DaeConvertDialogState::default();
    assert!(!state.is_open);
    assert_eq!(state.selected_dae_file, None);
    assert_eq!(state.config, c);
    assert_eq!(c.clone(), c);
}

#[test]
fn an_export_needs_a_directory_a_name_and_something_to_export() {
    let mut c = SceneExportConfig::default();
    assert!(!c.can_export());
    c.output_directory = "out".to_string();
    assert!(c.can_export());
    c.base_filename = String::new();
    assert!(!c.can_export());
    c.base_filename = "m".to_string();
    c.export_mesh = false;
    c.export_skeleton = false;
    assert!(c.can_export());
    c.export_modl = false;
    assert!(!c.can_export());
}

#[test]
fn a_conversion_needs_a_document_a_directory_and_a_name() {
    let mut state = DaeConvertDialogState::default();
    assert!(!state.can_convert());
    state.selected_dae_file = Some("scene.dae".to_string());
    assert!(!state.can_convert());
    state.config.output_directory = "out".to_string();
    assert!(state.can_convert());
    state.config.base_filename = String::new();
    assert!(!state.can_convert());
}

#[test]
fn export_hands_out_the_configuration_and_closes_the_dialog() {
    let mut state = SceneExportDialogState::default();
    state.is_open = true;
    state.config.base_filename = "fighter".to_string();
    assert_eq!(state.finish(false, false), None);
    assert!(state.is_open);
    let got = state.finish(true, false).unwrap();
    assert_eq!(got, state.config);
    assert!(!state.is_open);
    state.is_open = true;
    assert_eq!(state.finish(false, true), None);
    assert!(!state.is_open);
}

#[test]
fn convert_hands_out_the_configuration_and_closes_the_dialog() {
    let mut state = DaeConvertDialogState::default();
    state.is_open = true;
    state.config.scale_factor = Scalar::from_bits(2.5f32.to_bits());
    state.config.up_axis_conversion = UpAxisConversion::ZUp;
    assert_eq!(state.finish(false, false), None);
    assert!(state.is_open);
    let got = state.finish(true, false).unwrap();
    assert_eq!(got, state.config);
    assert!(!state.is_open);
    state.is_open = true;
    assert_eq!(state.finish(false, true), None);
    assert!(!state.is_open);
}

#[test]
fn an_export_writes_what_is_asked_for_and_there() {
    let mut c = SceneExportConfig::default();
    c.base_filename = "fighter".to_string();
    let all = SceneParts { mesh: true, skeleton: true, model: true };
    assert_eq!(
        plan_scene_export(&c, all),
        vec![
            (OutputKind::Mesh, "fighter.numshb".to_string()),
            (OutputKind::Skeleton, "fighter.nusktb".to_string()),
            (OutputKind::Model, "fighter.numdlb".to_string()),
        ]
    );
    assert_eq!(
        plan_scene_export(&c, SceneParts { mesh: true, skeleton: false, model: true }),
        vec![(OutputKind::Mesh, "fighter.numshb".to_string()), (OutputKind::Model, "fighter.numdlb".to_string())]
    );
    c.export_mesh = false;
    c.export_modl = false;
    assert_eq!(plan_scene_export(&c, all), vec![(OutputKind::Skeleton, "fighter.nusktb".to_string())]);
    assert!(plan_scene_export(&c, SceneParts { mesh: true, skeleton: false, model: true }).is_empty());
}

#[test]
fn written_files_are_recorded_by_kind() {
    let mut files = dae_scene::model::ConvertedFiles::default();
    files.record(OutputKind::Skeleton, "out/m.nusktb".to_string());
    files.record(OutputKind::Mesh, "out/m.numshb".to_string());
    assert_eq!(files.nusktb_path, Some("out/m.nusktb".to_string()));
    assert_eq!(files.numshb_path, Some("out/m.numshb".to_string()));
    assert_eq!(files.numdlb_path, None);
    assert_eq!(files.numatb_path, None);
    files.record(OutputKind::Model, "out/m.numdlb".to_string());
    files.record(OutputKind::Material, "out/m.numatb".to_string());
    assert_eq!(files.numdlb_path, Some("out/m.numdlb".to_string()));
    assert_eq!(files.numatb_path, Some("out/m.numatb".to_string()));
}
