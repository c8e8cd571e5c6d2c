//! The bridge from raw document text to the loader's own tree. Parsing is
//! done by yaml_rust; the two functions here are the only places the crate
//! touches it.

use vstd::prelude::*;
use crate::doc::DocNode;

verus! {

/// yaml_rust's parsed node type, opaque to verification: a value of it is
/// only carried from the parser into the conversion below.
#[verifier::external_type_specification]
#[verifier::external_body]
pub struct ExYaml(yaml_rust::Yaml);

/// The tree a piece of source text parses and converts to, if any. The
/// parse is a function of the text alone, so its result carries a name that
/// contracts can share; what the name is on given text only running the
/// parser can tell.
pub uninterp spec fn parsed_doc(s: Seq<char>) -> Option<DocNode>;

/// Relies on yaml_rust::YamlLoader::load_from_str: parses the source text
/// and hands back the first document of the stream, converted by `tree_of`
/// below, or `None` when the text does not scan or holds no document. The
/// result depends on the text alone; `parsed_doc` names it.
#[verifier::external_body]
pub(crate) fn parse_document(source: &str) -> (r: Option<DocNode>)
    ensures
        r == parsed_doc(source@),
{
    match yaml_rust::YamlLoader::load_from_str(source) {
        Ok(docs) => docs.into_iter().next().map(tree_of),
        Err(_) => None,
    }
}

/// Relies on yaml_rust::Yaml being an enum of mappings, sequences and
/// scalars: each arm moves one variant's data into the loader's own tree.
/// Shapes the loader has no use for become `DocNode::Other`.
#[verifier::external_body]
pub(crate) fn tree_of(y: yaml_rust::Yaml) -> DocNode {
    match y {
        yaml_rust::Yaml::Hash(h) => DocNode::Mapping(
            h.into_iter().map(|(k, v)| (tree_of(k), tree_of(v))).collect(),
        ),
        yaml_rust::Yaml::Array(a) => DocNode::Sequence(a.into_iter().map(tree_of).collect()),
        yaml_rust::Yaml::String(s) => DocNode::Text(s),
        yaml_rust::Yaml::Integer(i) => DocNode::Integer(i),
        _ => DocNode::Other,
    }
}

} // verus!
