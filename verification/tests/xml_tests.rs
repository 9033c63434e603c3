use dae_scene::error::DaeError;
use dae_scene::lists::{copy_list, repeat};
use dae_scene::model::{DaeBoneInfluence, DaeMesh, DaeVertexWeight};
use dae_scene::numbers::{
    group_pairs,
    group_triples,
    read_all_scalars,
    read_all_u32,
    read_scalars,
    read_usize,
    read_usizes,
    take_strided,
};
use dae_scene::scalar::Scalar;
use dae_scene::validate::{check_mesh_softly, SceneWarning};
use dae_scene::xml::{get_attribute, parse_xml_document, root_element, XmlElement, XmlNode, XmlText};

fn s(v: f32) -> Scalar {
    Scalar::from_bits(v.to_bits())
}

fn text(words: &str) -> XmlText {
    XmlText {
        text: words.to_string(),
        scalars: words.split_whitespace().map(|w| w.parse::<f32>().ok().map(s)).collect(),
    }
}

#[test]
fn an_element_is_built_piece_by_piece() {
    let mut e = XmlElement::new("source");
    assert_eq!(e, XmlElement { name: "source".to_string(), attributes: vec![], children: vec![] });
    e.set_attribute("id", "a".to_string());
    e.set_attribute("count", "1".to_string());
    e.set_attribute("id", "b".to_string());
    assert_eq!(
        e.attributes,
        vec![("id".to_string(), "b".to_string()), ("count".to_string(), "1".to_string())]
    );
    assert_eq!(get_attribute(&e, "id"), Some(&"b".to_string()));
    e.add_child(XmlElement::new("first"));
    e.add_text("words".to_string());
    e.add_numbers(&vec![s(1.0), s(-0.5)]);
    e.add_child(XmlElement::new("last"));
    assert_eq!(
        e.children,
        vec![
            XmlNode::Element(XmlElement::new("first")),
            XmlNode::Text(XmlText { text: "words".to_string(), scalars: vec![] }),
            XmlNode::Text(XmlText { text: String::new(), scalars: vec![Some(s(1.0)), Some(s(-0.5))] }),
            XmlNode::Element(XmlElement::new("last")),
        ]
    );
}

fn texts_below(element: &XmlElement, found: &mut Vec<XmlText>) {
    for child in &element.children {
        match child {
            XmlNode::Text(t) => found.push(t.clone()),
            XmlNode::Element(e) => texts_below(e, found),
            _ => {}
        }
    }
}

#[test]
fn the_texts_of_a_parsed_document_carry_no_numbers() {
    let root = parse_xml_document(b"<a>1 2<b>3.5 <c>4</c></b>five</a>").unwrap();
    let mut found = Vec::new();
    texts_below(&root, &mut found);
    let words: Vec<&str> = found.iter().map(|t| t.text.trim()).collect();
    assert_eq!(words, vec!["1 2", "3.5", "4", "five"]);
    assert!(found.iter().all(|t| t.scalars.is_empty()));
}

#[test]
fn the_root_is_the_first_element_of_a_document() {
    let nodes = vec![
        XmlNode::Comment("c".to_string()),
        XmlNode::ProcessingInstruction("p".to_string(), None),
        XmlNode::Element(XmlElement::new("root")),
        XmlNode::Element(XmlElement::new("second")),
    ];
    assert_eq!(root_element(Ok(nodes)), Ok(XmlElement::new("root")));
    assert_eq!(root_element(Ok(vec![XmlNode::Comment("c".to_string())])), Err(DaeError::NoRootElement));
    assert_eq!(root_element(Ok(vec![])), Err(DaeError::NoRootElement));
    assert_eq!(
        root_element(Err("unexpected end".to_string())),
        Err(DaeError::MalformedXml { detail: "unexpected end".to_string() })
    );
}

#[test]
fn numbers_are_read_strictly_or_loosely() {
    assert_eq!(read_all_scalars(&text("1 2.5 -3e2")), Some(vec![s(1.0), s(2.5), s(-300.0)]));
    assert_eq!(read_all_scalars(&text("1 two 3")), None);
    assert_eq!(read_all_scalars(&text("")), Some(vec![]));
    assert_eq!(read_scalars(&text("1 two 3")), vec![s(1.0), s(3.0)]);
    assert_eq!(read_scalars(&text("none at all")), vec![]);
    assert_eq!(read_all_u32("0 7 4294967295"), Some(vec![0, 7, 4294967295]));
    assert_eq!(read_all_u32("0 7 4294967296"), None);
    assert_eq!(read_all_u32("0 -7"), None);
    assert_eq!(read_all_u32("  "), Some(vec![]));
    assert_eq!(read_usizes("3 x 4 -1 +5 1.0"), vec![3, 4, 5]);
    assert_eq!(read_usize("12"), Some(12));
    assert_eq!(read_usize("12 "), None);
    assert_eq!(read_usize(""), None);
}

#[test]
fn numbers_are_grouped_and_picked() {
    let values: Vec<Scalar> = (0..7).map(|i| s(i as f32)).collect();
    assert_eq!(group_triples(&values), vec![[s(0.0), s(1.0), s(2.0)], [s(3.0), s(4.0), s(5.0)]]);
    assert_eq!(group_pairs(&values), vec![[s(0.0), s(1.0)], [s(2.0), s(3.0)], [s(4.0), s(5.0)]]);
    assert!(group_triples(&values[..2].to_vec()).is_empty());
    assert!(group_pairs(&vec![]).is_empty());
    let stream = vec![10, 11, 12, 13, 14, 15, 16];
    assert_eq!(take_strided(&stream, 0, 3), vec![10, 13, 16]);
    assert_eq!(take_strided(&stream, 1, 3), vec![11, 14]);
    assert_eq!(take_strided(&stream, 2, 1), vec![12, 13, 14, 15, 16]);
    assert_eq!(take_strided(&stream, 7, 2), Vec::<u32>::new());
    assert_eq!(take_strided(&stream, 6, usize::MAX), vec![16]);
}

#[test]
fn lists_are_copied_and_filled() {
    assert_eq!(copy_list(&vec![3u32, 1, 2]), vec![3, 1, 2]);
    assert_eq!(repeat(7u8, 3), vec![7, 7, 7]);
    assert!(repeat(7u8, 0).is_empty());
}

#[test]
fn what_is_odd_about_a_mesh_is_listed() {
    let mesh = DaeMesh {
        name: "m".to_string(),
        vertices: vec![[s(0.0); 3]; 2],
        normals: vec![[s(0.0); 3]; 3],
        uvs: vec![[s(0.0); 2]; 1],
        indices: vec![],
        material_name: None,
        bone_influences: vec![
            DaeBoneInfluence {
                bone_name: "a".to_string(),
                vertex_weights: vec![
                    DaeVertexWeight { vertex_index: 0, weight: s(0.5) },
                    DaeVertexWeight { vertex_index: 2, weight: s(1.5) },
                ],
            },
            DaeBoneInfluence {
                bone_name: "b".to_string(),
                vertex_weights: vec![
                    DaeVertexWeight { vertex_index: 1, weight: s(-0.25) },
                    DaeVertexWeight { vertex_index: 1, weight: s(f32::NAN) },
                    DaeVertexWeight { vertex_index: 1, weight: s(1.0) },
                    DaeVertexWeight { vertex_index: 1, weight: s(0.0) },
                ],
            },
        ],
    };
    assert_eq!(
        check_mesh_softly(&mesh, 4),
        vec![
            SceneWarning::NormalCountMismatch { mesh_index: 4, normals: 3, vertices: 2 },
            SceneWarning::UvCountMismatch { mesh_index: 4, uvs: 1, vertices: 2 },
            SceneWarning::WeightVertexOutOfRange { mesh_index: 4, influence_index: 0, vertex_index: 2, vertices: 2 },
            SceneWarning::WeightOutOfRange { mesh_index: 4, influence_index: 0, weight: s(1.5) },
            SceneWarning::WeightOutOfRange { mesh_index: 4, influence_index: 1, weight: s(-0.25) },
        ]
    );
    let sound = DaeMesh { normals: vec![], uvs: vec![[s(0.0); 2]; 2], bone_influences: vec![], ..mesh };
    assert!(check_mesh_softly(&sound, 0).is_empty());
}
