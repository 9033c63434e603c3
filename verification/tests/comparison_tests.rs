use dae_scene::gltf::skin::rank;
use dae_scene::model::DaeMesh;
use dae_scene::normalize::optimize_mesh_data;
use dae_scene::read::skin::resolve_influences;
use dae_scene::scalar::Scalar;
use std::collections::{BTreeMap, BTreeSet};

struct Dice(u64);

impl Dice {
    fn next(&mut self, below: u64) -> u64 {
        self.0 = self.0.wrapping_mul(6364136223846793005).wrapping_add(1442695040888963407);
        (self.0 >> 33) % below.max(1)
    }
}

fn s(v: f32) -> Scalar {
    Scalar::from_bits(v.to_bits())
}

fn stated_plainly(mesh: &DaeMesh) -> DaeMesh {
    let mut m = mesh.clone();
    let n = m.vertices.len();
    if n == 0 {
        m.normals.clear();
        m.uvs.clear();
    } else {
        if !m.normals.is_empty() {
            m.normals.resize(n, [s(0.0), s(1.0), s(0.0)]);
        }
        if !m.uvs.is_empty() {
            m.uvs.resize(n, [s(0.0), s(0.0)]);
        }
    }
    if m.indices.iter().all(|i| (*i as usize) < n) {
        return m;
    }
    let used: BTreeSet<u32> = m.indices.iter().copied().filter(|i| (*i as usize) < n).collect();
    let table: BTreeMap<u32, u32> = used.iter().enumerate().map(|(new, old)| (*old, new as u32)).collect();
    let vertices = used.iter().map(|i| m.vertices[*i as usize]).collect();
    let normals = used.iter().filter(|i| (**i as usize) < m.normals.len()).map(|i| m.normals[*i as usize]).collect();
    let uvs = used.iter().filter(|i| (**i as usize) < m.uvs.len()).map(|i| m.uvs[*i as usize]).collect();
    let mut indices: Vec<u32> = m.indices.iter().filter_map(|i| table.get(i).copied()).collect();
    let whole = indices.len() - indices.len() % 3;
    indices.truncate(whole);
    DaeMesh { vertices, normals, uvs, indices, ..m }
}

#[test]
fn normalization_does_what_a_plain_statement_of_it_does() {
    let mut dice = Dice(7);
    for round in 0..400 {
        let vertices = dice.next(7) as usize;
        let normals = if dice.next(2) == 0 { 0 } else { dice.next(9) as usize };
        let uvs = if dice.next(2) == 0 { 0 } else { dice.next(9) as usize };
        let indices = dice.next(13) as usize;
        let reach = 1 + dice.next(10);
        let mesh = DaeMesh {
            name: format!("mesh {}", round),
            vertices: (0..vertices).map(|i| [s(i as f32), s(0.0), s(0.0)]).collect(),
            normals: (0..normals).map(|i| [s(0.0), s(i as f32), s(1.0)]).collect(),
            uvs: (0..uvs).map(|i| [s(i as f32), s(0.5)]).collect(),
            indices: (0..indices).map(|_| dice.next(reach) as u32).collect(),
            material_name: None,
            bone_influences: vec![],
        };
        let expected = stated_plainly(&mesh);
        let mut got = mesh.clone();
        optimize_mesh_data(&mut got);
        assert_eq!(got, expected, "{:?}", mesh);
        assert!(got.indices.iter().all(|i| (*i as usize) < got.vertices.len()));
        assert!(got.normals.is_empty() || got.normals.len() == got.vertices.len());
        assert!(got.uvs.is_empty() || got.uvs.len() == got.vertices.len());
        if mesh.indices.iter().any(|i| (*i as usize) >= vertices) || mesh.indices.len() % 3 == 0 {
            assert_eq!(got.indices.len() % 3, 0);
        }
        let once = got.clone();
        optimize_mesh_data(&mut got);
        assert_eq!(got, once);
    }
}

#[test]
fn skin_weights_are_grouped_as_a_map_by_bone_groups_them() {
    let mut dice = Dice(11);
    for _ in 0..300 {
        let names: Vec<String> = (0..dice.next(4)).map(|i| format!("bone{}", i % 3)).collect();
        let weights: Vec<Scalar> = (0..dice.next(5)).map(|_| s(dice.next(3) as f32 * 0.5 - 0.5)).collect();
        let vcounts: Vec<usize> = (0..dice.next(6)).map(|_| dice.next(4) as usize).collect();
        let v: Vec<usize> = (0..dice.next(20)).map(|_| dice.next(5) as usize).collect();

        let mut grouped: BTreeMap<String, Vec<(u32, u32)>> = BTreeMap::new();
        let mut cursor = 0;
        for (vertex, count) in vcounts.iter().enumerate() {
            for _ in 0..*count {
                if cursor + 1 < v.len() {
                    let (joint, slot) = (v[cursor], v[cursor + 1]);
                    if joint < names.len() && slot < weights.len() {
                        let weight = f32::from_bits(weights[slot].to_bits());
                        if weight != 0.0 {
                            grouped.entry(names[joint].clone()).or_default().push((vertex as u32, weight.to_bits()));
                        }
                    }
                    cursor += 2;
                }
            }
        }

        let got = resolve_influences(&vcounts, &v, &names, &weights);
        let mut seen = BTreeSet::new();
        for influence in &got {
            assert!(seen.insert(influence.bone_name.clone()), "a bone stands twice");
            let listed: Vec<(u32, u32)> =
                influence.vertex_weights.iter().map(|w| (w.vertex_index, w.weight.to_bits())).collect();
            assert_eq!(Some(&listed), grouped.get(&influence.bone_name));
        }
        assert_eq!(got.len(), grouped.len());
    }
}

#[test]
fn ranking_is_a_stable_sort_by_descending_weight() {
    let mut dice = Dice(3);
    for _ in 0..300 {
        let list: Vec<(usize, Scalar)> =
            (0..dice.next(9)).map(|i| (i as usize, s(dice.next(4) as f32 * 0.25 - 0.25))).collect();
        let mut sorted = list.clone();
        sorted.sort_by(|a, b| {
            f32::from_bits(b.1.to_bits()).partial_cmp(&f32::from_bits(a.1.to_bits())).unwrap()
        });
        assert_eq!(rank(&list), sorted);
    }
}
