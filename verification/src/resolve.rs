//! Two-pass name resolution: collect every territory's short name in
//! document order, then resolve references against that list. When a short
//! name is duplicated, the later (higher-index) occurrence wins.

use vstd::prelude::*;
use crate::doc::DocNode;
use crate::doc::spec_str_field;
use crate::doc::spec_text;
use crate::doc::get_str_field;
use crate::doc::as_text;
use crate::errors::LoadError;
use crate::errors::LoadErrorV;

verus! {

/// The short name of a territory or region entry: its text field `name`.
pub open spec fn spec_entry_name(e: DocNode) -> Option<Seq<char>> {
    spec_str_field(e, "name"@)
}

/// Pass one over the territory entries: their short names, in document
/// order. The first entry that is no mapping, or has no text `name`, aborts
/// the load.
pub open spec fn spec_names(entries: Seq<DocNode>) -> Result<Seq<Seq<char>>, LoadErrorV>
    decreases entries.len(),
{
    if entries.len() == 0 {
        Ok(Seq::empty())
    } else {
        match spec_names(entries.drop_last()) {
            Err(er) => Err(er),
            Ok(prefix) => {
                let entry = entries.last();
                if !(entry is Mapping) {
                    Err(LoadErrorV::EntryNotMapping)
                } else {
                    match spec_entry_name(entry) {
                        None => Err(LoadErrorV::TerritoryMissingName),
                        Some(n) => Ok(prefix.push(n)),
                    }
                }
            },
        }
    }
}

/// The index a short name resolves to: the position of its last occurrence.
pub open spec fn spec_resolve(names: Seq<Seq<char>>, target: Seq<char>) -> Option<int>
    decreases names.len(),
{
    if names.len() == 0 {
        None
    } else if names.last() == target {
        Some(names.len() - 1)
    } else {
        spec_resolve(names.drop_last(), target)
    }
}

/// A sequence of resolved indices seen as mathematical integers.
pub open spec fn view_indices(v: Seq<usize>) -> Seq<int> {
    v.map_values(|x: usize| x as int)
}

/// Resolution of a whole reference list: each element must be a text scalar
/// (else `text_err`) naming a known territory (else a reference error
/// carrying that very name).
pub open spec fn spec_resolve_list(
    items: Seq<DocNode>,
    names: Seq<Seq<char>>,
    text_err: LoadErrorV,
) -> Result<Seq<int>, LoadErrorV>
    decreases items.len(),
{
    if items.len() == 0 {
        Ok(Seq::empty())
    } else {
        match spec_resolve_list(items.drop_last(), names, text_err) {
            Err(er) => Err(er),
            Ok(prefix) => match spec_text(items.last()) {
                None => Err(text_err),
                Some(s) => match spec_resolve(names, s) {
                    None => Err(LoadErrorV::UnknownName(s)),
                    Some(ix) => Ok(prefix.push(ix)),
                },
            },
        }
    }
}

/// Once a prefix of the entries fails pass one, the whole pass fails the
/// same way.
pub proof fn lemma_names_err(entries: Seq<DocNode>, i: int)
    requires
        0 <= i <= entries.len(),
        spec_names(entries.take(i)) is Err,
    ensures
        spec_names(entries) == spec_names(entries.take(i)),
    decreases entries.len() - i,
{
    if i < entries.len() {
        assert(entries.take(i + 1).drop_last() =~= entries.take(i));
        lemma_names_err(entries, i + 1);
    } else {
        assert(entries.take(i) =~= entries);
    }
}

/// Once a prefix of a reference list fails to resolve, the whole list fails
/// the same way.
pub proof fn lemma_resolve_list_err(
    items: Seq<DocNode>,
    names: Seq<Seq<char>>,
    text_err: LoadErrorV,
    i: int,
)
    requires
        0 <= i <= items.len(),
        spec_resolve_list(items.take(i), names, text_err) is Err,
    ensures
        spec_resolve_list(items, names, text_err) == spec_resolve_list(items.take(i), names, text_err),
    decreases items.len() - i,
{
    if i < items.len() {
        assert(items.take(i + 1).drop_last() =~= items.take(i));
        lemma_resolve_list_err(items, names, text_err, i + 1);
    } else {
        assert(items.take(i) =~= items);
    }
}

/// A resolved index is in range, carries the resolved name, and no later
/// position carries it too: resolution is last-write-wins.
pub proof fn lemma_resolve_some(names: Seq<Seq<char>>, target: Seq<char>)
    requires
        spec_resolve(names, target) is Some,
    ensures
        ({
            let i = spec_resolve(names, target)->0;
            &&& 0 <= i < names.len()
            &&& names[i] == target
            &&& forall|j: int| i < j < names.len() ==> names[j] != target
        }),
    decreases names.len(),
{
    if names.len() > 0 && !(names.last() == target) {
        lemma_resolve_some(names.drop_last(), target);
        assert(forall|j: int| 0 <= j < names.len() - 1 ==> names[j] == names.drop_last()[j]);
    }
}

/// Every name that occurs somewhere resolves, and to a position no earlier
/// than any of its occurrences.
pub proof fn lemma_resolve_finds_last(names: Seq<Seq<char>>, target: Seq<char>, j: int)
    requires
        0 <= j < names.len(),
        names[j] == target,
    ensures
        spec_resolve(names, target) matches Some(i) && j <= i < names.len(),
    decreases names.len(),
{
    if !(names.last() == target) {
        assert(j < names.len() - 1);
        assert(names.drop_last()[j] == names[j]);
        lemma_resolve_finds_last(names.drop_last(), target, j);
    }
}

/// Pass one of the loader: collect each territory entry's short name, in
/// document order, aborting on the first entry without one.
pub fn collect_names(entries: &Vec<DocNode>) -> (r: Result<Vec<String>, LoadError>)
    ensures
        match r {
            Ok(names) => spec_names(entries@) == Ok::<Seq<Seq<char>>, LoadErrorV>(
                names.deep_view(),
            ),
            Err(er) => spec_names(entries@) == Err::<Seq<Seq<char>>, LoadErrorV>(er@),
        },
{
    let mut names: Vec<String> = Vec::new();
    let n: usize = entries.len();
    let mut i: usize = 0;
    proof {
        assert(entries@.take(0) =~= Seq::<DocNode>::empty());
        assert(names.deep_view() =~= Seq::<Seq<char>>::empty());
    }
    while i < n
        invariant
            i <= n,
            n == entries.len(),
            spec_names(entries@.take(i as int)) == Ok::<Seq<Seq<char>>, LoadErrorV>(
                names.deep_view(),
            ),
        decreases n - i,
    {
        proof {
            assert(entries@.take(i as int + 1).drop_last() =~= entries@.take(i as int));
            assert(entries@.take(i as int + 1).last() == entries@[i as int]);
        }
        let entry = &entries[i];
        let is_mapping: bool = match entry {
            DocNode::Mapping(_) => true,
            _ => false,
        };
        if !is_mapping {
            proof {
                lemma_names_err(entries@, i as int + 1);
            }
            return Err(LoadError::EntryNotMapping);
        }
        match get_str_field(entry, "name") {
            None => {
                proof {
                    lemma_names_err(entries@, i as int + 1);
                }
                return Err(LoadError::TerritoryMissingName);
            },
            Some(s) => {
                let ghost pre = names.deep_view();
                let owned: String = s.clone();
                names.push(owned);
                proof {
                    assert(names.deep_view() =~= pre.push(s@));
                }
            },
        }
        i = i + 1;
    }
    proof {
        assert(entries@.take(n as int) =~= entries@);
    }
    Ok(names)
}

/// Look one short name up; the resolved index is the last position carrying
/// that name.
pub fn resolve(names: &Vec<String>, target: &String) -> (r: Option<usize>)
    ensures
        match r {
            Some(ix) => spec_resolve(names.deep_view(), target@) == Some(ix as int) && ix
                < names@.len(),
            None => spec_resolve(names.deep_view(), target@) is None,
        },
{
    let mut i: usize = names.len();
    proof {
        assert(names.deep_view().take(names@.len() as int) =~= names.deep_view());
    }
    while i > 0
        invariant
            i <= names@.len(),
            spec_resolve(names.deep_view(), target@) == spec_resolve(
                names.deep_view().take(i as int),
                target@,
            ),
        decreases i,
    {
        i = i - 1;
        proof {
            assert(names.deep_view().take(i as int + 1).drop_last() =~= names.deep_view().take(
                i as int,
            ));
            assert(names.deep_view().take(i as int + 1).last() == names@[i as int]@);
        }
        let nm = &names[i];
        if *nm == *target {
            return Some(i);
        }
    }
    proof {
        assert(names.deep_view().take(0) =~= Seq::<Seq<char>>::empty());
    }
    None
}

/// Resolve a whole reference list to indices, aborting on the first element
/// that is no text scalar or names no territory.
pub fn resolve_name_list(items: &Vec<DocNode>, names: &Vec<String>, text_err: LoadError) -> (r:
    Result<Vec<usize>, LoadError>)
    ensures
        match r {
            Ok(ixs) => spec_resolve_list(items@, names.deep_view(), text_err@) == Ok::<
                Seq<int>,
                LoadErrorV,
            >(view_indices(ixs@)) && forall|k: int|
                0 <= k < ixs@.len() ==> ixs@[k] < names@.len(),
            Err(er) => spec_resolve_list(items@, names.deep_view(), text_err@) == Err::<
                Seq<int>,
                LoadErrorV,
            >(er@),
        },
{
    let mut ixs: Vec<usize> = Vec::new();
    let n: usize = items.len();
    let mut i: usize = 0;
    proof {
        assert(items@.take(0) =~= Seq::<DocNode>::empty());
        assert(view_indices(ixs@) =~= Seq::<int>::empty());
    }
    while i < n
        invariant
            i <= n,
            n == items.len(),
            spec_resolve_list(items@.take(i as int), names.deep_view(), text_err@) == Ok::<
                Seq<int>,
                LoadErrorV,
            >(view_indices(ixs@)),
            forall|k: int| 0 <= k < ixs@.len() ==> ixs@[k] < names@.len(),
        decreases n - i,
    {
        proof {
            assert(items@.take(i as int + 1).drop_last() =~= items@.take(i as int));
            assert(items@.take(i as int + 1).last() == items@[i as int]);
        }
        let item = &items[i];
        match as_text(item) {
            None => {
                proof {
                    lemma_resolve_list_err(items@, names.deep_view(), text_err@, i as int + 1);
                }
                return Err(text_err);
            },
            Some(s) => {
                match resolve(names, s) {
                    None => {
                        proof {
                            lemma_resolve_list_err(
                                items@,
                                names.deep_view(),
                                text_err@,
                                i as int + 1,
                            );
                        }
                        return Err(LoadError::UnknownName(s.clone()));
                    },
                    Some(ix) => {
                        let ghost pre = view_indices(ixs@);
                        ixs.push(ix);
                        proof {
                            assert(view_indices(ixs@) =~= pre.push(ix as int));
                        }
                    },
                }
            },
        }
        i = i + 1;
    }
    proof {
        assert(items@.take(n as int) =~= items@);
    }
    Ok(ixs)
}

} // verus!
