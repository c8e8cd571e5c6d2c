//! The board assembler: the sole entry point that turns a whole document
//! into a validated, cross-referenced `GameBoard`, or into the first error
//! the document earns. Construction is all-or-nothing: no partial board is
//! ever returned.

use vstd::prelude::*;
use crate::doc::DocNode;
use crate::doc::spec_entries;
use crate::doc::get_seq_field;
use crate::errors::LoadError;
use crate::errors::LoadErrorV;
use crate::doc::spec_text;
use crate::resolve::spec_names;
use crate::resolve::spec_entry_name;
use crate::resolve::collect_names;
use crate::territory::BoardSpot;
use crate::territory::MapTerritory;
use crate::territory::TerritoryV;
use crate::territory::spec_territory;
use crate::territory::spec_attacks;
use crate::region::spec_members;
use crate::region::BonusRegion;
use crate::region::RegionV;
use crate::region::spec_region;
use crate::yaml_doc::parse_document;
use crate::yaml_doc::parsed_doc;

verus! {

/// Mathematical image of a whole board.
#[verifier::ext_equal]
pub struct BoardV {
    pub territories: Seq<TerritoryV>,
    pub regions: Seq<RegionV>,
}

/// The images of a list of territories, in order.
pub open spec fn territory_views<T: Clone + BoardSpot + Default>(
    v: Seq<MapTerritory<T>>,
) -> Seq<TerritoryV> {
    Seq::new(v.len(), |i: int| v[i]@)
}

/// The images of a list of regions, in order.
pub open spec fn region_views(v: Seq<BonusRegion>) -> Seq<RegionV> {
    Seq::new(v.len(), |i: int| v[i]@)
}

/// All information for a board on which a game is played.
pub struct GameBoard<T> where T: Clone + BoardSpot + Default {
    pub(crate) _territories: Vec<MapTerritory<T>>,
    pub(crate) bonus_regions: Vec<BonusRegion>,
}

impl<T: Clone + BoardSpot + Default> View for GameBoard<T> {
    type V = BoardV;

    closed spec fn view(&self) -> BoardV {
        BoardV {
            territories: territory_views(self._territories@),
            regions: region_views(self.bonus_regions@),
        }
    }
}

/// Pass two over the territory entries: each becomes one territory, in
/// document order; the first bad entry aborts.
pub open spec fn spec_territories(entries: Seq<DocNode>, names: Seq<Seq<char>>) -> Result<
    Seq<TerritoryV>,
    LoadErrorV,
>
    decreases entries.len(),
{
    if entries.len() == 0 {
        Ok(Seq::empty())
    } else {
        match spec_territories(entries.drop_last(), names) {
            Err(er) => Err(er),
            Ok(prefix) => match spec_territory(entries.last(), names) {
                Err(er) => Err(er),
                Ok(t) => Ok(prefix.push(t)),
            },
        }
    }
}

/// The single pass over the region entries, after all territory indices are
/// stable.
pub open spec fn spec_regions(entries: Seq<DocNode>, names: Seq<Seq<char>>) -> Result<
    Seq<RegionV>,
    LoadErrorV,
>
    decreases entries.len(),
{
    if entries.len() == 0 {
        Ok(Seq::empty())
    } else {
        match spec_regions(entries.drop_last(), names) {
            Err(er) => Err(er),
            Ok(prefix) => match spec_region(entries.last(), names) {
                Err(er) => Err(er),
                Ok(reg) => Ok(prefix.push(reg)),
            },
        }
    }
}

/// What the whole document builds to: the top-level node must be a mapping,
/// `territories` and `regions` must be sequences, names are collected in one
/// pass and every reference resolved in the next. The first failure anywhere
/// is the result.
pub open spec fn spec_build_board(doc: DocNode) -> Result<BoardV, LoadErrorV> {
    if !(doc is Mapping) {
        Err(LoadErrorV::NotMapping)
    } else {
        match spec_entries(doc, "territories"@) {
            Some(t_entries) => match spec_names(t_entries) {
                Err(er) => Err(er),
                Ok(names) => match spec_territories(t_entries, names) {
                    Err(er) => Err(er),
                    Ok(terrs) => match spec_entries(doc, "regions"@) {
                        Some(r_entries) => match spec_regions(r_entries, names) {
                            Err(er) => Err(er),
                            Ok(regs) => Ok(BoardV { territories: terrs, regions: regs }),
                        },
                        None => Err(LoadErrorV::RegionsNotSequence),
                    },
                },
            },
            None => Err(LoadErrorV::TerritoriesNotSequence),
        }
    }
}

/// A reference string that some territory entry declares as its `name`.
pub open spec fn known_name(t_entries: Seq<DocNode>, s: Seq<char>) -> bool {
    exists|k: int| 0 <= k < t_entries.len() && spec_entry_name(#[trigger] t_entries[k]) == Some(s)
}

/// Every element is a text scalar naming some territory entry.
pub open spec fn wf_reference_list(items: Seq<DocNode>, t_entries: Seq<DocNode>) -> bool {
    forall|j: int|
        0 <= j < items.len() ==> (spec_text(#[trigger] items[j]) matches Some(s) && known_name(
            t_entries,
            s,
        ))
}

/// A territory entry with everything the document format requires: a
/// mapping carrying a text `name` and a `canAttack` sequence of known
/// names.
pub open spec fn wf_territory_entry(e: DocNode, t_entries: Seq<DocNode>) -> bool {
    &&& e is Mapping
    &&& spec_entry_name(e) is Some
    &&& (spec_attacks(e) matches Some(items) && wf_reference_list(items, t_entries))
}

/// A region entry with everything the document format requires: a mapping
/// carrying a text `name` and a `territories` sequence of known names.
pub open spec fn wf_region_entry(e: DocNode, t_entries: Seq<DocNode>) -> bool {
    &&& e is Mapping
    &&& spec_entry_name(e) is Some
    &&& (spec_members(e) matches Some(items) && wf_reference_list(items, t_entries))
}

/// A well-formed document: a top-level mapping whose `territories` and
/// `regions` keys hold sequences of well-formed entries, every reference
/// naming a territory that exists.
pub open spec fn spec_doc_wf(doc: DocNode) -> bool {
    &&& doc is Mapping
    &&& (spec_entries(doc, "territories"@) matches Some(t_entries) && {
        &&& (forall|i: int|
            0 <= i < t_entries.len() ==> wf_territory_entry(#[trigger] t_entries[i], t_entries))
        &&& (spec_entries(doc, "regions"@) matches Some(r_entries) && (forall|i: int|
            0 <= i < r_entries.len() ==> wf_region_entry(#[trigger] r_entries[i], t_entries)))
    })
}

/// Once a prefix of the territory entries fails pass two, the whole pass
/// fails the same way.
pub proof fn lemma_territories_err(entries: Seq<DocNode>, names: Seq<Seq<char>>, i: int)
    requires
        0 <= i <= entries.len(),
        spec_territories(entries.take(i), names) is Err,
    ensures
        spec_territories(entries, names) == spec_territories(entries.take(i), names),
    decreases entries.len() - i,
{
    if i < entries.len() {
        assert(entries.take(i + 1).drop_last() =~= entries.take(i));
        lemma_territories_err(entries, names, i + 1);
    } else {
        assert(entries.take(i) =~= entries);
    }
}

/// Once a prefix of the region entries fails, the whole pass fails the same
/// way.
pub proof fn lemma_regions_err(entries: Seq<DocNode>, names: Seq<Seq<char>>, i: int)
    requires
        0 <= i <= entries.len(),
        spec_regions(entries.take(i), names) is Err,
    ensures
        spec_regions(entries, names) == spec_regions(entries.take(i), names),
    decreases entries.len() - i,
{
    if i < entries.len() {
        assert(entries.take(i + 1).drop_last() =~= entries.take(i));
        lemma_regions_err(entries, names, i + 1);
    } else {
        assert(entries.take(i) =~= entries);
    }
}

impl<T: Clone + BoardSpot + Default> GameBoard<T> {
    /// Assemble a board from an already-parsed document tree. The result is
    /// exactly what `spec_build_board` says of the document: a complete
    /// board, or the first failure encountered.
    #[verifier::loop_isolation(false)]
    pub fn build_board(doc: &DocNode) -> (r: Result<GameBoard<T>, LoadError>)
        ensures
            match r {
                Ok(board) => spec_build_board(*doc) == Ok::<BoardV, LoadErrorV>(board@),
                Err(er) => spec_build_board(*doc) == Err::<BoardV, LoadErrorV>(er@),
            },
    {
        let is_mapping: bool = match doc {
            DocNode::Mapping(_) => true,
            _ => false,
        };
        if !is_mapping {
            return Err(LoadError::NotMapping);
        }
        let t_entries: &Vec<DocNode> = match get_seq_field(doc, "territories") {
            Some(v) => v,
            None => {
                return Err(LoadError::TerritoriesNotSequence);
            },
        };
        let names: Vec<String> = match collect_names(t_entries) {
            Ok(ns) => ns,
            Err(er) => {
                return Err(er);
            },
        };
        let mut terrs: Vec<MapTerritory<T>> = Vec::new();
        let t_count: usize = t_entries.len();
        let mut i: usize = 0;
        proof {
            assert(t_entries@.take(0) =~= Seq::<DocNode>::empty());
            assert(territory_views(terrs@) =~= Seq::<TerritoryV>::empty());
        }
        while i < t_count
            invariant
                i <= t_count,
                t_count == t_entries@.len(),
                spec_territories(t_entries@.take(i as int), names.deep_view()) == Ok::<
                    Seq<TerritoryV>,
                    LoadErrorV,
                >(territory_views(terrs@)),
            decreases t_count - i,
        {
            proof {
                assert(t_entries@.take(i as int + 1).drop_last() =~= t_entries@.take(i as int));
                assert(t_entries@.take(i as int + 1).last() == t_entries@[i as int]);
            }
            match MapTerritory::<T>::build_territory(&t_entries[i], &names) {
                Err(er) => {
                    proof {
                        lemma_territories_err(t_entries@, names.deep_view(), i as int + 1);
                    }
                    return Err(er);
                },
                Ok(t) => {
                    let ghost pre = territory_views(terrs@);
                    let ghost tv = t@;
                    terrs.push(t);
                    proof {
                        assert(territory_views(terrs@) =~= pre.push(tv));
                    }
                },
            }
            i = i + 1;
        }
        proof {
            assert(t_entries@.take(t_count as int) =~= t_entries@);
        }
        let r_entries: &Vec<DocNode> = match get_seq_field(doc, "regions") {
            Some(v) => v,
            None => {
                return Err(LoadError::RegionsNotSequence);
            },
        };
        let mut regs: Vec<BonusRegion> = Vec::new();
        let r_count: usize = r_entries.len();
        let mut j: usize = 0;
        proof {
            assert(r_entries@.take(0) =~= Seq::<DocNode>::empty());
            assert(region_views(regs@) =~= Seq::<RegionV>::empty());
        }
        while j < r_count
            invariant
                j <= r_count,
                r_count == r_entries@.len(),
                spec_regions(r_entries@.take(j as int), names.deep_view()) == Ok::<
                    Seq<RegionV>,
                    LoadErrorV,
                >(region_views(regs@)),
            decreases r_count - j,
        {
            proof {
                assert(r_entries@.take(j as int + 1).drop_last() =~= r_entries@.take(j as int));
                assert(r_entries@.take(j as int + 1).last() == r_entries@[j as int]);
            }
            match BonusRegion::build_region(&r_entries[j], &names) {
                Err(er) => {
                    proof {
                        lemma_regions_err(r_entries@, names.deep_view(), j as int + 1);
                    }
                    return Err(er);
                },
                Ok(reg) => {
                    let ghost pre = region_views(regs@);
                    let ghost rv = reg@;
                    regs.push(reg);
                    proof {
                        assert(region_views(regs@) =~= pre.push(rv));
                    }
                },
            }
            j = j + 1;
        }
        proof {
            assert(r_entries@.take(r_count as int) =~= r_entries@);
        }
        let board = GameBoard { _territories: terrs, bonus_regions: regs };
        Ok(board)
    }

    /// Load a board from document source text: parse, then assemble. Text
    /// that does not parse earns the format error; text that parses to the
    /// tree `parsed_doc` names is built exactly as `spec_build_board` says.
    pub fn load_from_str(source: &str) -> (r: Result<GameBoard<T>, LoadError>)
        ensures
            match parsed_doc(source@) {
                None => r matches Err(er) && er@ == LoadErrorV::InvalidDocument,
                Some(d) => match r {
                    Ok(board) => spec_build_board(d) == Ok::<BoardV, LoadErrorV>(board@),
                    Err(er) => spec_build_board(d) == Err::<BoardV, LoadErrorV>(er@),
                },
            },
    {
        match parse_document(source) {
            Some(d) => Self::build_board(&d),
            None => Err(LoadError::InvalidDocument),
        }
    }

    /// The board's territories, in document order; a territory's position
    /// here is its canonical identity.
    pub fn territories(&self) -> (r: &Vec<MapTerritory<T>>)
        ensures
            territory_views(r@) == self@.territories,
    {
        &self._territories
    }

    /// The board's bonus regions, in document order.
    pub fn regions(&self) -> (r: &Vec<BonusRegion>)
        ensures
            region_views(r@) == self@.regions,
    {
        &self.bonus_regions
    }
}

} // verus!
