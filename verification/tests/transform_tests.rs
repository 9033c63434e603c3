use dae_scene::model::{DaeConvertConfig, UpAxisConversion};
use dae_scene::scalar::Scalar;
use dae_scene::transform::{
    apply_normal_transforms,
    apply_transforms,
    convert_vector,
    restore_vector,
};

fn s(v: f32) -> Scalar {
    Scalar::from_bits(v.to_bits())
}

fn v3(x: f32, y: f32, z: f32) -> [Scalar; 3] {
    [s(x), s(y), s(z)]
}

fn config(axis: UpAxisConversion, scale: f32) -> DaeConvertConfig {
    DaeConvertConfig {
        output_directory: String::new(),
        base_filename: "model".to_string(),
        scale_factor: s(scale),
        up_axis_conversion: axis,
    }
}

fn scaled(vertices: &[[f32; 3]], config: &DaeConvertConfig) -> Vec<[Scalar; 3]> {
    let k = f32::from_bits(config.scale_factor.to_bits());
    vertices.iter().map(|v| v3(v[0] * k, v[1] * k, v[2] * k)).collect()
}

#[test]
fn scale_two_and_z_up_turn_one_two_three_into_two_six_minus_four() {
    let c = config(UpAxisConversion::ZUp, 2.0);
    let out = apply_transforms(&scaled(&[[1.0, 2.0, 3.0]], &c), &c);
    assert_eq!(out, vec![v3(2.0, 6.0, -4.0)]);
}

#[test]
fn y_up_and_no_conversion_leave_vectors_alone() {
    let input = vec![v3(1.0, 2.0, 3.0), v3(-1.0, 0.0, 0.5)];
    assert_eq!(apply_transforms(&input, &config(UpAxisConversion::YUp, 1.0)), input);
    assert_eq!(apply_transforms(&input, &config(UpAxisConversion::NoConversion, 1.0)), input);
    assert_eq!(apply_normal_transforms(&input, &config(UpAxisConversion::YUp, 3.0)), input);
    assert_eq!(apply_normal_transforms(&input, &config(UpAxisConversion::NoConversion, 3.0)), input);
}

#[test]
fn normals_are_turned_and_never_scaled() {
    let c = config(UpAxisConversion::ZUp, 5.0);
    let out = apply_normal_transforms(&[v3(0.0, 0.0, 1.0), v3(0.0, 1.0, 0.0)], &c);
    assert_eq!(out[0], v3(0.0, 1.0, -0.0));
    assert_eq!(out[1], v3(0.0, 0.0, -1.0));
}

#[test]
fn turning_and_turning_back_gives_the_vector() {
    for v in [v3(1.0, 2.0, 3.0), v3(0.0, -0.0, 7.5), v3(f32::NAN, f32::INFINITY, -1e-40)] {
        assert_eq!(restore_vector(convert_vector(v, UpAxisConversion::ZUp)), v);
    }
}

#[test]
fn empty_lists_stay_empty() {
    let c = config(UpAxisConversion::ZUp, 2.0);
    assert!(apply_transforms(&[], &c).is_empty());
    assert!(apply_normal_transforms(&[], &c).is_empty());
}
