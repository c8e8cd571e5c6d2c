//! The generic structured-document tree that the loader consumes, together
//! with typed field accessors: the only way the rest of the crate reads a
//! document.

use vstd::prelude::*;

verus! {

/// One node of a parsed structured document: a mapping from scalar keys to
/// child nodes, a sequence of child nodes, a text scalar, an integer scalar,
/// or any other shape the loader has no use for.
pub enum DocNode {
    Mapping(Vec<(DocNode, DocNode)>),
    Sequence(Vec<DocNode>),
    Text(String),
    Integer(i64),
    Other,
}

/// The text of a scalar node, if it is one.
pub open spec fn spec_text(d: DocNode) -> Option<Seq<char>> {
    match d {
        DocNode::Text(s) => Some(s@),
        _ => None,
    }
}

/// First value in `pairs` whose key is the text scalar `key`.
pub open spec fn spec_lookup(pairs: Seq<(DocNode, DocNode)>, key: Seq<char>) -> Option<DocNode>
    decreases pairs.len(),
{
    if pairs.len() == 0 {
        None
    } else if pairs[0].0 matches DocNode::Text(k) && k@ == key {
        Some(pairs[0].1)
    } else {
        spec_lookup(pairs.drop_first(), key)
    }
}

/// The value under `key` when `d` is a mapping.
pub open spec fn spec_field(d: DocNode, key: Seq<char>) -> Option<DocNode> {
    match d {
        DocNode::Mapping(pairs) => spec_lookup(pairs@, key),
        _ => None,
    }
}

/// The value under `key` when it is present and a text scalar.
pub open spec fn spec_str_field(d: DocNode, key: Seq<char>) -> Option<Seq<char>> {
    match spec_field(d, key) {
        Some(v) => spec_text(v),
        None => None,
    }
}

/// The elements under `key` when it is present and a sequence.
pub open spec fn spec_entries(d: DocNode, key: Seq<char>) -> Option<Seq<DocNode>> {
    match spec_field(d, key) {
        Some(DocNode::Sequence(v)) => Some(v@),
        _ => None,
    }
}

/// The value under `key` when it is present and an integer scalar.
pub open spec fn spec_int_field(d: DocNode, key: Seq<char>) -> Option<i64> {
    match spec_field(d, key) {
        Some(DocNode::Integer(i)) => Some(i),
        _ => None,
    }
}

/// Look a field up in a mapping node; `None` when `d` is not a mapping or no
/// pair carries the key.
pub fn doc_get<'a>(d: &'a DocNode, key: &str) -> (r: Option<&'a DocNode>)
    ensures
        match r {
            Some(v) => spec_field(*d, key@) == Some(*v),
            None => spec_field(*d, key@) is None,
        },
{
    match d {
        DocNode::Mapping(pairs) => {
            let key_string: String = key.to_owned();
            let n: usize = pairs.len();
            let mut i: usize = 0;
            proof {
                assert(pairs@.skip(0) =~= pairs@);
            }
            while i < n
                invariant
                    i <= n,
                    n == pairs.len(),
                    key_string@ == key@,
                    spec_field(*d, key@) == spec_lookup(pairs@, key@),
                    spec_lookup(pairs@, key@) == spec_lookup(pairs@.skip(i as int), key@),
                decreases n - i,
            {
                proof {
                    assert(pairs@.skip(i as int).drop_first() =~= pairs@.skip(i as int + 1));
                }
                let matched: bool = match &pairs[i].0 {
                    DocNode::Text(k) => *k == key_string,
                    _ => false,
                };
                if matched {
                    proof {
                        assert(pairs@.skip(i as int)[0] == pairs@[i as int]);
                    }
                    return Some(&pairs[i].1);
                }
                i = i + 1;
            }
            None
        },
        _ => None,
    }
}

/// Borrow the text of a scalar node, if it is one.
pub fn as_text(d: &DocNode) -> (r: Option<&String>)
    ensures
        match r {
            Some(s) => spec_text(*d) == Some(s@),
            None => spec_text(*d) is None,
        },
{
    match d {
        DocNode::Text(s) => Some(s),
        _ => None,
    }
}

/// Text field accessor: `Some` exactly when the field is present and text.
pub fn get_str_field<'a>(d: &'a DocNode, key: &str) -> (r: Option<&'a String>)
    ensures
        match r {
            Some(s) => spec_str_field(*d, key@) == Some(s@),
            None => spec_str_field(*d, key@) is None,
        },
{
    match doc_get(d, key) {
        Some(v) => as_text(v),
        None => None,
    }
}

/// Integer field accessor: `Some` exactly when the field is present and an
/// integer scalar.
pub fn get_int_field(d: &DocNode, key: &str) -> (r: Option<i64>)
    ensures
        r == spec_int_field(*d, key@),
{
    match doc_get(d, key) {
        Some(v) => match v {
            DocNode::Integer(i) => Some(*i),
            _ => None,
        },
        None => None,
    }
}

/// Sequence field accessor: `Some` exactly when the field is present and a
/// sequence.
pub fn get_seq_field<'a>(d: &'a DocNode, key: &str) -> (r: Option<&'a Vec<DocNode>>)
    ensures
        match r {
            Some(items) => spec_field(*d, key@) == Some(DocNode::Sequence(*items)),
            None => !(spec_field(*d, key@) matches Some(v) && v is Sequence),
        },
{
    match doc_get(d, key) {
        Some(v) => match v {
            DocNode::Sequence(items) => Some(items),
            _ => None,
        },
        None => None,
    }
}

} // verus!
