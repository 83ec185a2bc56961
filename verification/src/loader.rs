//! Loading a level from the text of a map file: an XML document with a `map`
//! element, whose `data` element holds the tile data.

use vstd::prelude::*;
use vstd::string::*;
use crate::level::{layout, place_tiles, Level, LevelModel};
use crate::tiles::{decode_tiles, decoded, MapError};

verus! {

/// What the loader reads of one node of the document.
#[derive(Clone, Debug, PartialEq, Eq)]
pub struct XmlNode {
    /// The local tag name; empty for a node that is no element.
    pub tag: String,
    /// The text of the node's first child; `None` where the node has no
    /// child or the child carries no text.
    pub text: Option<String>,
}

/// The mathematical content of an [`XmlNode`]: its tag and its text.
pub type NodeModel = (Seq<char>, Option<Seq<char>>);

impl View for XmlNode {
    type V = NodeModel;

    open spec fn view(&self) -> NodeModel {
        (
            self.tag@,
            match self.text {
                Some(text) => Some(text@),
                None => None,
            },
        )
    }
}

/// The models of a list of nodes, in the same order.
pub open spec fn node_models(nodes: Seq<XmlNode>) -> Seq<NodeModel> {
    nodes.map_values(|node: XmlNode| node@)
}

/// The error of `roxmltree::Document::parse`. The loader reads nothing of
/// it: every parse error is [`MapError::InvalidXml`].
#[verifier::external_type_specification]
#[verifier::external_body]
pub struct ExXmlError(roxmltree::Error);

/// What `roxmltree` reads of the document `text`: the tag and the text of
/// every node, the root first and then in document order, or `None` where it
/// refuses `text` as not well-formed.
pub uninterp spec fn xml_nodes(text: Seq<char>) -> Option<Seq<NodeModel>>;

/// Parses `text` with `roxmltree::Document::parse` and walks the document
/// with `Document::descendants`, keeping of each node the name that
/// `Node::tag_name` gives and the `Node::text` of its `Node::first_child`.
///
/// Nothing is claimed of the parse but that it depends on `text` alone and
/// fails exactly where [`xml_nodes`] is `None`.
#[verifier::external_body]
fn parse_nodes(text: &str) -> (r: Result<Vec<XmlNode>, roxmltree::Error>)
    ensures
        match r {
            Ok(nodes) => xml_nodes(text@) == Some(node_models(nodes@)),
            Err(_) => xml_nodes(text@) is None,
        },
{
    let doc = roxmltree::Document::parse(text)?;
    let mut nodes = Vec::new();
    for node in doc.descendants() {
        nodes.push(XmlNode {
            tag: node.tag_name().name().to_string(),
            text: node.first_child().and_then(|child| child.text()).map(String::from),
        });
    }
    Ok(nodes)
}

/// The node is an element named `data`.
pub open spec fn is_data(node: NodeModel) -> bool {
    node.0 == "data"@
}

/// The node is an element named `map`.
pub open spec fn is_map(node: NodeModel) -> bool {
    node.0 == "map"@
}

/// Some `data` element among the first `n` nodes has no text.
pub open spec fn has_empty_data(nodes: Seq<NodeModel>, n: int) -> bool {
    exists|i: int| 0 <= i < n && is_data(#[trigger] nodes[i]) && nodes[i].1 is None
}

/// Some `map` element is among the first `n` nodes.
pub open spec fn has_map(nodes: Seq<NodeModel>, n: int) -> bool {
    exists|i: int| 0 <= i < n && is_map(#[trigger] nodes[i])
}

/// The text of the last `data` element; empty where there is none.
pub open spec fn data_text(nodes: Seq<NodeModel>) -> Seq<char>
    decreases nodes.len(),
{
    if nodes.len() == 0 {
        Seq::empty()
    } else if is_data(nodes.last()) && nodes.last().1 is Some {
        nodes.last().1.unwrap()
    } else {
        data_text(nodes.drop_last())
    }
}

/// The tile list that a document's nodes hold.
pub open spec fn node_tiles(nodes: Seq<NodeModel>) -> Result<Seq<u8>, MapError> {
    if has_empty_data(nodes, nodes.len() as int) {
        Err(MapError::EmptyData)
    } else if !has_map(nodes, nodes.len() as int) {
        Err(MapError::NotAMap)
    } else {
        decoded(vstd::utf8::encode_utf8(data_text(nodes)))
    }
}

/// The tile list of a parsed, or unparsable, document.
pub open spec fn document_tiles(doc: Option<Seq<NodeModel>>) -> Result<Seq<u8>, MapError> {
    match doc {
        Some(nodes) => node_tiles(nodes),
        None => Err(MapError::InvalidXml),
    }
}

/// The level of a parsed, or unparsable, document.
pub open spec fn document_level(doc: Option<Seq<NodeModel>>) -> Result<LevelModel, MapError> {
    match document_tiles(doc) {
        Ok(list) => layout(list),
        Err(e) => Err(e),
    }
}

/// The data text is the text of the last `data` element that has text:
/// the element at index `k`, where no `data` element with text follows it.
pub proof fn lemma_last_data_counts(nodes: Seq<NodeModel>, k: int)
    requires
        0 <= k < nodes.len(),
        is_data(nodes[k]),
        nodes[k].1 is Some,
        forall|j: int|
            k < j < nodes.len() ==> !(is_data(#[trigger] nodes[j]) && nodes[j].1 is Some),
    ensures
        data_text(nodes) == nodes[k].1.unwrap(),
    decreases nodes.len(),
{
    if k < nodes.len() - 1 {
        assert(!(is_data(nodes[nodes.len() - 1]) && nodes[nodes.len() - 1].1 is Some));
        lemma_last_data_counts(nodes.drop_last(), k);
    }
}

/// Without a `data` element that has text the data text is empty.
pub proof fn lemma_no_data_no_text(nodes: Seq<NodeModel>)
    requires
        forall|j: int|
            0 <= j < nodes.len() ==> !(is_data(#[trigger] nodes[j]) && nodes[j].1 is Some),
    ensures
        data_text(nodes) == Seq::<char>::empty(),
    decreases nodes.len(),
{
    if nodes.len() > 0 {
        assert(!(is_data(nodes[nodes.len() - 1]) && nodes[nodes.len() - 1].1 is Some));
        lemma_no_data_no_text(nodes.drop_last());
    }
}

/// Finds the tile data among the nodes of a document and decodes it.
///
/// A `data` element without text is refused wherever it stands; after that
/// a document without a `map` element; the data then decodes as
/// [`decode_tiles`] says. Of several `data` elements the last one counts, and
/// a map without any has empty data.
pub fn tiles_from_nodes(nodes: &Vec<XmlNode>) -> (r: Result<Vec<u8>, MapError>)
    ensures
        match r {
            Ok(list) => node_tiles(node_models(nodes@)) == Ok::<Seq<u8>, MapError>(list@),
            Err(e) => node_tiles(node_models(nodes@)) == Err::<Seq<u8>, MapError>(e),
        },
{
    let data_tag = String::from_str("data");
    let map_tag = String::from_str("map");
    let mut text = String::new();
    let mut found_map = false;
    let ghost models = node_models(nodes@);
    let mut i: usize = 0;
    while i < nodes.len()
        invariant
            i <= nodes.len(),
            models == node_models(nodes@),
            data_tag@ == "data"@,
            map_tag@ == "map"@,
            !has_empty_data(models, i as int),
            found_map == has_map(models, i as int),
            text@ == data_text(models.take(i as int)),
        decreases nodes.len() - i,
    {
        let node = &nodes[i];
        proof {
            let next = models.take(i + 1);
            assert(next.drop_last() == models.take(i as int));
            assert(next.last() == node@);
            assert(models[i as int] == node@);
            reveal_strlit("data");
            reveal_strlit("map");
            assert("data"@.len() == 4 && "map"@.len() == 3);
        }
        if node.tag == data_tag {
            match &node.text {
                Some(found) => {
                    text = found.clone();
                },
                None => {
                    assert(has_empty_data(models, models.len() as int));
                    return Err(MapError::EmptyData);
                },
            }
        } else if node.tag == map_tag {
            found_map = true;
        }
        i += 1;
    }
    proof {
        assert(models.take(nodes.len() as int) == models);
    }
    if !found_map {
        return Err(MapError::NotAMap);
    }
    decode_tiles(text.as_str().as_bytes())
}

/// Decodes the tile list of a map file from the file's text.
pub fn load_tmx(text: &str) -> (r: Result<Vec<u8>, MapError>)
    ensures
        match r {
            Ok(list) => document_tiles(xml_nodes(text@)) == Ok::<Seq<u8>, MapError>(list@),
            Err(e) => document_tiles(xml_nodes(text@)) == Err::<Seq<u8>, MapError>(e),
        },
{
    match parse_nodes(text) {
        Ok(nodes) => tiles_from_nodes(&nodes),
        Err(_) => Err(MapError::InvalidXml),
    }
}

/// Loads a level from the text of a map file.
pub fn load_map(text: &str) -> (r: Result<Level, MapError>)
    ensures
        match r {
            Ok(level) => document_level(xml_nodes(text@)) == Ok::<LevelModel, MapError>(level@),
            Err(e) => document_level(xml_nodes(text@)) == Err::<LevelModel, MapError>(e),
        },
        r matches Ok(level) ==> level@.well_formed(),
{
    match load_tmx(text) {
        Ok(list) => place_tiles(list.as_slice()),
        Err(e) => Err(e),
    }
}

} // verus!
