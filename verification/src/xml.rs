//! A labelled tree that stands for an XML document: the few queries the
//! readers need (a child by name, all children of a name, the first text, an
//! attribute), the reading of a document through `xmltree`, and the building
//! of a tree piece by piece.

use vstd::prelude::*;
use crate::error::DaeError;
use crate::scalar::Scalar;
use crate::text::text_eq;

verus! {

/// Character data of an element.
///
/// `scalars` holds, for each whitespace-separated word of `text` in order,
/// the single-precision number that the word denotes, or `None` where it
/// denotes none. The reader of a document leaves it empty; whoever can read
/// numbers fills it in before geometry is extracted.
#[derive(Clone, Debug, PartialEq, Eq)]
pub struct XmlText {
    pub text: String,
    pub scalars: Vec<Option<Scalar>>,
}

/// An element: its name without prefix, its attributes in document order, its
/// children in document order.
#[derive(Debug, PartialEq, Eq)]
pub struct XmlElement {
    pub name: String,
    pub attributes: Vec<(String, String)>,
    pub children: Vec<XmlNode>,
}

/// A node of the tree.
#[derive(Debug, PartialEq, Eq)]
pub enum XmlNode {
    Element(XmlElement),
    Comment(String),
    CData(String),
    Text(XmlText),
    ProcessingInstruction(String, Option<String>),
}

/// The value behind an optional reference.
pub open spec fn owned<T>(r: Option<&T>) -> Option<T> {
    match r {
        Some(x) => Some(*x),
        None => None,
    }
}

/// The values behind a list of references.
pub open spec fn all_owned<T>(r: Seq<&T>) -> Seq<T> {
    r.map_values(|x: &T| *x)
}

/// The first element called `name` among `nodes`.
pub open spec fn first_element(nodes: Seq<XmlNode>, name: Seq<char>) -> Option<XmlElement>
    decreases nodes.len(),
{
    if nodes.len() == 0 {
        None
    } else {
        match nodes[0] {
            XmlNode::Element(e) => if e.name@ == name {
                Some(e)
            } else {
                first_element(nodes.drop_first(), name)
            },
            _ => first_element(nodes.drop_first(), name),
        }
    }
}

/// The elements called `name` among `nodes`, in order.
pub open spec fn elements_named(nodes: Seq<XmlNode>, name: Seq<char>) -> Seq<XmlElement>
    decreases nodes.len(),
{
    if nodes.len() == 0 {
        Seq::empty()
    } else {
        let rest = elements_named(nodes.drop_last(), name);
        match nodes.last() {
            XmlNode::Element(e) => if e.name@ == name {
                rest.push(e)
            } else {
                rest
            },
            _ => rest,
        }
    }
}

/// The first text among `nodes`.
pub open spec fn first_text(nodes: Seq<XmlNode>) -> Option<XmlText>
    decreases nodes.len(),
{
    if nodes.len() == 0 {
        None
    } else {
        match nodes[0] {
            XmlNode::Text(t) => Some(t),
            _ => first_text(nodes.drop_first()),
        }
    }
}

/// The value of the first pair in `pairs` whose key is `key`.
pub open spec fn lookup(pairs: Seq<(String, String)>, key: Seq<char>) -> Option<String>
    decreases pairs.len(),
{
    if pairs.len() == 0 {
        None
    } else if pairs[0].0@ == key {
        Some(pairs[0].1)
    } else {
        lookup(pairs.drop_first(), key)
    }
}

impl XmlElement {
    /// The first child element called `name`.
    pub open spec fn child(self, name: Seq<char>) -> Option<XmlElement> {
        first_element(self.children@, name)
    }

    /// The child elements called `name`, in document order.
    pub open spec fn children_named(self, name: Seq<char>) -> Seq<XmlElement> {
        elements_named(self.children@, name)
    }

    /// The first text directly under the element.
    pub open spec fn text(self) -> Option<XmlText> {
        first_text(self.children@)
    }

    /// The value of the attribute `name`.
    pub open spec fn attribute(self, name: Seq<char>) -> Option<String> {
        lookup(self.attributes@, name)
    }
}

/// The first child element of `element` called `name`.
pub fn find_child<'a>(element: &'a XmlElement, name: &str) -> (r: Option<&'a XmlElement>)
    ensures
        owned(r) == element.child(name@),
{
    let n = element.children.len();
    let mut i: usize = 0;
    proof {
        assert(element.children@.skip(0) =~= element.children@);
    }
    while i < n
        invariant
            i <= n,
            n == element.children@.len(),
            element.child(name@) == first_element(element.children@.skip(i as int), name@),
        decreases n - i,
    {
        proof {
            assert(element.children@.skip(i as int).drop_first() =~= element.children@.skip(
                i + 1,
            ));
        }
        match &element.children[i] {
            XmlNode::Element(e) => {
                if text_eq(e.name.as_str(), name) {
                    return Some(e);
                }
            },
            _ => {},
        }
        i += 1;
    }
    None
}

/// The child elements of `element` called `name`, in document order.
pub fn find_all_children<'a>(element: &'a XmlElement, name: &str) -> (r: Vec<&'a XmlElement>)
    ensures
        all_owned(r@) == element.children_named(name@),
{
    let mut out: Vec<&'a XmlElement> = Vec::new();
    let n = element.children.len();
    let mut i: usize = 0;
    proof {
        assert(all_owned(out@) =~= Seq::<XmlElement>::empty());
    }
    while i < n
        invariant
            i <= n,
            n == element.children@.len(),
            all_owned(out@) == elements_named(element.children@.take(i as int), name@),
        decreases n - i,
    {
        proof {
            assert(element.children@.take(i + 1).drop_last() =~= element.children@.take(i as int));
        }
        match &element.children[i] {
            XmlNode::Element(e) => {
                if text_eq(e.name.as_str(), name) {
                    proof {
                        assert(all_owned(out@.push(e)) =~= all_owned(out@).push(*e));
                    }
                    out.push(e);
                }
            },
            _ => {},
        }
        i += 1;
    }
    proof {
        assert(element.children@.take(n as int) =~= element.children@);
    }
    out
}

/// The first text directly under `element`.
pub fn get_element_text<'a>(element: &'a XmlElement) -> (r: Option<&'a XmlText>)
    ensures
        owned(r) == element.text(),
{
    let n = element.children.len();
    let mut i: usize = 0;
    proof {
        assert(element.children@.skip(0) =~= element.children@);
    }
    while i < n
        invariant
            i <= n,
            n == element.children@.len(),
            element.text() == first_text(element.children@.skip(i as int)),
        decreases n - i,
    {
        proof {
            assert(element.children@.skip(i as int).drop_first() =~= element.children@.skip(
                i + 1,
            ));
        }
        match &element.children[i] {
            XmlNode::Text(t) => {
                return Some(t);
            },
            _ => {},
        }
        i += 1;
    }
    None
}

/// The value of the attribute `name` of `element`.
pub fn get_attribute<'a>(element: &'a XmlElement, name: &str) -> (r: Option<&'a String>)
    ensures
        owned(r) == element.attribute(name@),
{
    let n = element.attributes.len();
    let mut i: usize = 0;
    proof {
        assert(element.attributes@.skip(0) =~= element.attributes@);
    }
    while i < n
        invariant
            i <= n,
            n == element.attributes@.len(),
            element.attribute(name@) == lookup(element.attributes@.skip(i as int), name@),
        decreases n - i,
    {
        proof {
            assert(element.attributes@.skip(i as int).drop_first() =~= element.attributes@.skip(
                i + 1,
            ));
        }
        if text_eq(element.attributes[i].0.as_str(), name) {
            return Some(&element.attributes[i].1);
        }
        i += 1;
    }
    None
}

/// Character data as plain values.
pub struct TextModel {
    pub text: Seq<char>,
    pub scalars: Seq<Option<Scalar>>,
}

/// A node as plain values.
pub enum NodeModel {
    Element(ElementModel),
    Comment(Seq<char>),
    CData(Seq<char>),
    Text(TextModel),
    ProcessingInstruction(Seq<char>, Option<Seq<char>>),
}

/// An element as plain values.
pub struct ElementModel {
    pub name: Seq<char>,
    pub attributes: Seq<(Seq<char>, Seq<char>)>,
    pub children: Seq<NodeModel>,
}

/// Pairs of strings as pairs of texts.
pub open spec fn pair_texts(list: Seq<(String, String)>) -> Seq<(Seq<char>, Seq<char>)> {
    list.map_values(|p: (String, String)| (p.0@, p.1@))
}

impl XmlText {
    /// The text as plain values.
    pub open spec fn model(self) -> TextModel {
        TextModel { text: self.text@, scalars: self.scalars@ }
    }
}

/// An element with all below it as plain values.
pub open spec fn element_model(e: XmlElement) -> ElementModel
    decreases e,
{
    ElementModel {
        name: e.name@,
        attributes: pair_texts(e.attributes@),
        children: node_models(e.children@),
    }
}

/// A list of nodes with all below them as plain values.
pub open spec fn node_models(nodes: Seq<XmlNode>) -> Seq<NodeModel>
    decreases nodes,
{
    if nodes.len() == 0 {
        Seq::empty()
    } else {
        node_models(nodes.drop_last()).push(node_model(nodes.last()))
    }
}

/// A node with all below it as plain values.
pub open spec fn node_model(node: XmlNode) -> NodeModel
    decreases node,
{
    match node {
        XmlNode::Element(e) => NodeModel::Element(element_model(e)),
        XmlNode::Comment(c) => NodeModel::Comment(c@),
        XmlNode::CData(c) => NodeModel::CData(c@),
        XmlNode::Text(t) => NodeModel::Text(t.model()),
        XmlNode::ProcessingInstruction(n, d) => NodeModel::ProcessingInstruction(
            n@,
            match d {
                Some(x) => Some(x@),
                None => None,
            },
        ),
    }
}

/// An element without attributes and children.
pub open spec fn empty_element(name: Seq<char>) -> ElementModel {
    ElementModel { name, attributes: Seq::empty(), children: Seq::empty() }
}

/// The position of the first pair with the key `key`.
pub open spec fn key_position(pairs: Seq<(Seq<char>, Seq<char>)>, key: Seq<char>) -> Option<int>
    decreases pairs.len(),
{
    if pairs.len() == 0 {
        None
    } else {
        match key_position(pairs.drop_last(), key) {
            Some(i) => Some(i),
            None => if pairs.last().0 == key {
                Some(pairs.len() - 1)
            } else {
                None
            },
        }
    }
}

/// An element with the attribute `key` set to `value`: in the place of a
/// former value, or behind the other attributes.
pub open spec fn with_attribute(e: ElementModel, key: Seq<char>, value: Seq<char>) -> ElementModel {
    ElementModel {
        attributes: match key_position(e.attributes, key) {
            Some(i) => e.attributes.update(i, (key, value)),
            None => e.attributes.push((key, value)),
        },
        ..e
    }
}

/// An element with one more child element.
pub open spec fn with_child(e: ElementModel, child: ElementModel) -> ElementModel {
    ElementModel { children: e.children.push(NodeModel::Element(child)), ..e }
}

/// An element with one more text.
pub open spec fn with_text(e: ElementModel, text: Seq<char>) -> ElementModel {
    ElementModel {
        children: e.children.push(NodeModel::Text(TextModel { text, scalars: Seq::empty() })),
        ..e
    }
}

/// The entries of a list of numbers, each as a word that denotes it.
pub open spec fn as_words(numbers: Seq<Scalar>) -> Seq<Option<Scalar>> {
    numbers.map_values(|x: Scalar| Some(x))
}

/// An element with one more text, made of numbers. How they are written is
/// left to whoever writes the document.
pub open spec fn with_numbers(e: ElementModel, numbers: Seq<Scalar>) -> ElementModel {
    ElementModel {
        children: e.children.push(
            NodeModel::Text(TextModel { text: Seq::empty(), scalars: as_words(numbers) }),
        ),
        ..e
    }
}

pub(crate) proof fn lemma_key_position(pairs: Seq<(Seq<char>, Seq<char>)>, key: Seq<char>)
    ensures
        match key_position(pairs, key) {
            Some(i) => 0 <= i < pairs.len() && pairs[i].0 == key && forall|k: int|
                0 <= k < i ==> pairs[k].0 != key,
            None => forall|k: int| 0 <= k < pairs.len() ==> pairs[k].0 != key,
        },
    decreases pairs.len(),
{
    if pairs.len() > 0 {
        lemma_key_position(pairs.drop_last(), key);
        assert forall|k: int| 0 <= k < pairs.len() - 1 implies pairs.drop_last()[k] == pairs[k] by {}
    }
}

impl XmlElement {
    /// An element without attributes and children.
    pub fn new(name: &str) -> (r: XmlElement)
        ensures
            element_model(r) == empty_element(name@),
    {
        let e = XmlElement { name: name.to_owned(), attributes: Vec::new(), children: Vec::new() };
        proof {
            assert(pair_texts(e.attributes@) =~= Seq::empty());
        }
        e
    }

    /// Sets the attribute `key` to `value`.
    pub fn set_attribute(&mut self, key: &str, value: String)
        ensures
            element_model(*final(self)) == with_attribute(element_model(*old(self)), key@, value@),
    {
        let ghost before = pair_texts(self.attributes@);
        proof {
            lemma_key_position(before, key@);
        }
        let n = self.attributes.len();
        let mut i: usize = 0;
        while i < n
            invariant
                i <= n,
                n == self.attributes@.len(),
                *self == *old(self),
                before == pair_texts(self.attributes@),
                forall|k: int| 0 <= k < i ==> before[k].0 != key@,
            decreases n - i,
        {
            if text_eq(self.attributes[i].0.as_str(), key) {
                self.attributes.set(i, (key.to_owned(), value));
                proof {
                    lemma_key_position(before, key@);
                    assert(before[i as int].0 == key@);
                    assert(pair_texts(self.attributes@) =~= before.update(i as int, (key@, value@)));
                }
                return ;
            }
            i += 1;
        }
        self.attributes.push((key.to_owned(), value));
        proof {
            lemma_key_position(before, key@);
            assert(pair_texts(self.attributes@) =~= before.push((key@, value@)));
        }
    }

    /// Adds a child element behind the other children.
    pub fn add_child(&mut self, child: XmlElement)
        ensures
            element_model(*final(self)) == with_child(element_model(*old(self)), element_model(child)),
    {
        let ghost before = self.children@;
        self.children.push(XmlNode::Element(child));
        proof {
            assert(self.children@.drop_last() =~= before);
        }
    }

    /// Adds a text behind the other children.
    pub fn add_text(&mut self, text: String)
        ensures
            element_model(*final(self)) == with_text(element_model(*old(self)), text@),
    {
        let ghost before = self.children@;
        self.children.push(XmlNode::Text(XmlText { text, scalars: Vec::new() }));
        proof {
            assert(self.children@.drop_last() =~= before);
        }
    }

    /// Adds a text made of numbers behind the other children.
    pub fn add_numbers(&mut self, numbers: &Vec<Scalar>)
        ensures
            element_model(*final(self)) == with_numbers(element_model(*old(self)), numbers@),
    {
        let mut scalars: Vec<Option<Scalar>> = Vec::new();
        let n = numbers.len();
        let mut i: usize = 0;
        while i < n
            invariant
                i <= n,
                n == numbers@.len(),
                scalars@.len() == i,
                forall|k: int| 0 <= k < i ==> scalars@[k] == Some(numbers@[k]),
            decreases n - i,
        {
            scalars.push(Some(numbers[i]));
            i += 1;
        }
        proof {
            assert(scalars@ =~= as_words(numbers@));
        }
        let ghost before = self.children@;
        self.children.push(XmlNode::Text(XmlText { text: String::new(), scalars }));
        proof {
            assert(self.children@.drop_last() =~= before);
        }
    }
}

/// A node as `xmltree` holds it.
#[verifier::external_type_specification]
#[verifier::external_body]
pub struct ExXmlNode(xmltree::XMLNode);

/// What `xmltree::Element::parse_all` makes of a document: its top-level
/// nodes, texts without numbers, or the message of the parser's error.
pub uninterp spec fn xml_document(bytes: Seq<u8>) -> Result<Seq<NodeModel>, Seq<char>>;

/// A parsed document as plain values.
pub open spec fn parsed_model(parsed: Result<Vec<XmlNode>, String>) -> Result<
    Seq<NodeModel>,
    Seq<char>,
> {
    match parsed {
        Ok(nodes) => Ok(node_models(nodes@)),
        Err(message) => Err(message@),
    }
}

/// Whether no text among `nodes`, at any depth, carries the numbers of its
/// words.
pub open spec fn without_numbers(nodes: Seq<NodeModel>) -> bool
    decreases nodes,
{
    if nodes.len() == 0 {
        true
    } else {
        without_numbers(nodes.drop_last()) && match nodes.last() {
            NodeModel::Text(t) => t.scalars.len() == 0,
            NodeModel::Element(e) => without_numbers(e.children),
            _ => true,
        }
    }
}

/// Copies one node of `xmltree`, with all below it, into the library's tree:
/// names, attributes in the order `xmltree` keeps them, children in order.
/// Prefixes and namespaces are left behind.
#[verifier::external_body]
fn convert_node(node: &xmltree::XMLNode) -> XmlNode {
    match node {
        xmltree::XMLNode::Element(e) => XmlNode::Element(XmlElement {
            name: e.name.clone(),
            attributes: e.attributes.iter().map(|(k, v)| (k.clone(), v.clone())).collect(),
            children: e.children.iter().map(convert_node).collect(),
        }),
        xmltree::XMLNode::Comment(c) => XmlNode::Comment(c.clone()),
        xmltree::XMLNode::CData(c) => XmlNode::CData(c.clone()),
        xmltree::XMLNode::Text(t) => XmlNode::Text(XmlText { text: t.clone(), scalars: Vec::new() }),
        xmltree::XMLNode::ProcessingInstruction(n, d) => XmlNode::ProcessingInstruction(n.clone(), d.clone()),
    }
}

/// `xmltree::Element::parse_all` on `bytes`. The parser reads nothing but the
/// bytes, so the same bytes give the same nodes or the same message. The
/// texts come as the parser gives them: none carries the numbers of its
/// words.
#[verifier::external_body]
fn read_nodes(bytes: &[u8]) -> (r: Result<Vec<XmlNode>, String>)
    ensures
        parsed_model(r) == xml_document(bytes@),
        r matches Ok(nodes) ==> without_numbers(node_models(nodes@)),
{
    match xmltree::Element::parse_all(bytes) {
        Ok(nodes) => Ok(nodes.iter().map(convert_node).collect()),
        Err(e) => Err(e.to_string()),
    }
}

/// The first element among `nodes`.
pub open spec fn leading_element(nodes: Seq<XmlNode>) -> Option<XmlElement>
    decreases nodes.len(),
{
    if nodes.len() == 0 {
        None
    } else {
        match nodes[0] {
            XmlNode::Element(e) => Some(e),
            _ => leading_element(nodes.drop_first()),
        }
    }
}

/// The root of a parsed document: its first top-level element.
pub open spec fn document_root(parsed: Result<Vec<XmlNode>, String>) -> Result<
    XmlElement,
    DaeError,
> {
    match parsed {
        Err(detail) => Err(DaeError::MalformedXml { detail }),
        Ok(nodes) => match leading_element(nodes@) {
            Some(e) => Ok(e),
            None => Err(DaeError::NoRootElement),
        },
    }
}

/// The first element among `nodes`.
pub open spec fn leading_model(nodes: Seq<NodeModel>) -> Option<ElementModel>
    decreases nodes.len(),
{
    if nodes.len() == 0 {
        None
    } else {
        match nodes[0] {
            NodeModel::Element(e) => Some(e),
            _ => leading_model(nodes.drop_first()),
        }
    }
}

/// How reading a document ends.
pub enum Reading {
    /// The document has this root.
    Root(ElementModel),
    /// The document is no well-formed XML; the parser says why.
    Malformed(Seq<char>),
    /// The document holds no element.
    NoRoot,
}

/// How the reading of a parsed document ends.
pub open spec fn reading_of(parsed: Result<Seq<NodeModel>, Seq<char>>) -> Reading {
    match parsed {
        Err(detail) => Reading::Malformed(detail),
        Ok(nodes) => match leading_model(nodes) {
            Some(e) => Reading::Root(e),
            None => Reading::NoRoot,
        },
    }
}

/// A root element or an error as the end of a reading.
pub open spec fn reading(r: Result<XmlElement, DaeError>) -> Option<Reading> {
    match r {
        Ok(root) => Some(Reading::Root(element_model(root))),
        Err(DaeError::MalformedXml { detail }) => Some(Reading::Malformed(detail@)),
        Err(DaeError::NoRootElement) => Some(Reading::NoRoot),
        Err(_) => None,
    }
}

pub(crate) proof fn lemma_node_models_index(nodes: Seq<XmlNode>, i: int)
    requires
        0 <= i < nodes.len(),
    ensures
        node_models(nodes).len() == nodes.len(),
        node_models(nodes)[i] == node_model(nodes[i]),
    decreases nodes.len(),
{
    lemma_node_models_len(nodes);
    if i < nodes.len() - 1 {
        lemma_node_models_index(nodes.drop_last(), i);
    }
}

pub(crate) proof fn lemma_node_models_len(nodes: Seq<XmlNode>)
    ensures
        node_models(nodes).len() == nodes.len(),
    decreases nodes.len(),
{
    if nodes.len() > 0 {
        lemma_node_models_len(nodes.drop_last());
    }
}

/// The first element of a list of nodes is the first element of the nodes
/// as plain values.
proof fn lemma_leading_model(nodes: Seq<XmlNode>)
    ensures
        leading_model(node_models(nodes)) == match leading_element(nodes) {
            Some(e) => Some(element_model(e)),
            None => None,
        },
    decreases nodes.len(),
{
    lemma_node_models_len(nodes);
    if nodes.len() > 0 {
        lemma_node_models_index(nodes, 0);
        let rest = nodes.drop_first();
        lemma_leading_model(rest);
        lemma_node_models_len(rest);
        assert(node_models(nodes).drop_first() =~= node_models(rest)) by {
            assert forall|k: int| 0 <= k < rest.len() implies node_models(nodes).drop_first()[k]
                == node_models(rest)[k] by {
                lemma_node_models_index(nodes, k + 1);
                lemma_node_models_index(rest, k);
            }
        }
    }
}

/// Where the first element of a list stands.
proof fn lemma_leading_position(nodes: Seq<NodeModel>) -> (i: int)
    requires
        leading_model(nodes) is Some,
    ensures
        0 <= i < nodes.len(),
        nodes[i] == NodeModel::Element(leading_model(nodes)->0),
    decreases nodes.len(),
{
    match nodes[0] {
        NodeModel::Element(_) => 0,
        _ => 1 + lemma_leading_position(nodes.drop_first()),
    }
}

/// Where no text among nodes carries numbers, none below any of them does.
proof fn lemma_without_numbers_at(nodes: Seq<NodeModel>, i: int)
    requires
        without_numbers(nodes),
        0 <= i < nodes.len(),
    ensures
        nodes[i] matches NodeModel::Element(e) ==> without_numbers(e.children),
    decreases nodes.len(),
{
    if i < nodes.len() - 1 {
        lemma_without_numbers_at(nodes.drop_last(), i);
    }
}

/// Picks the root element out of a parsed document.
pub fn root_element(parsed: Result<Vec<XmlNode>, String>) -> (r: Result<XmlElement, DaeError>)
    ensures
        r == document_root(parsed),
        reading(r) == Some(reading_of(parsed_model(parsed))),
        parsed matches Ok(nodes) && without_numbers(node_models(nodes@)) ==> (r matches Ok(root)
            ==> without_numbers(element_model(root).children)),
{
    proof {
        if parsed is Ok {
            let models = node_models(parsed->Ok_0@);
            lemma_leading_model(parsed->Ok_0@);
            if without_numbers(models) && leading_model(models) is Some {
                let i = lemma_leading_position(models);
                lemma_without_numbers_at(models, i);
            }
        }
    }
    match parsed {
        Err(detail) => Err(DaeError::MalformedXml { detail }),
        Ok(nodes) => {
            let mut rest = nodes;
            while rest.len() > 0
                invariant
                    parsed == Ok::<Vec<XmlNode>, String>(nodes),
                    leading_element(nodes@) == leading_element(rest@),
                    leading_model(node_models(nodes@)) == match leading_element(nodes@) {
                        Some(e) => Some(element_model(e)),
                        None => None,
                    },
                    without_numbers(node_models(nodes@)) ==> (leading_element(nodes@) matches Some(
                        e,
                    ) ==> without_numbers(element_model(e).children)),
                decreases rest@.len(),
            {
                let ghost before = rest@;
                let node = rest.remove(0);
                proof {
                    assert(rest@ =~= before.drop_first());
                    assert(node == before[0]);
                    assert(leading_element(before) == match node {
                        XmlNode::Element(e) => Some(e),
                        _ => leading_element(rest@),
                    });
                }
                match node {
                    XmlNode::Element(e) => {
                        return Ok(e);
                    },
                    _ => {},
                }
            }
            Err(DaeError::NoRootElement)
        },
    }
}

/// Reads an XML document and returns its root element. No text of it
/// carries the numbers of its words yet.
pub fn parse_xml_document(bytes: &[u8]) -> (r: Result<XmlElement, DaeError>)
    ensures
        reading(r) == Some(reading_of(xml_document(bytes@))),
        r matches Ok(root) ==> without_numbers(element_model(root).children),
{
    root_element(read_nodes(bytes))
}

} // verus!
