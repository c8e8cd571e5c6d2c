//! Territories: one map location each, carrying a game-specific payload and
//! attack edges stored as positional indices into the board's territory
//! list.

use vstd::prelude::*;
use crate::doc::DocNode;
use crate::doc::spec_str_field;
use crate::doc::get_str_field;
use crate::doc::get_seq_field;
use crate::errors::LoadError;
use crate::errors::LoadErrorV;
use crate::resolve::spec_entry_name;
use crate::resolve::spec_resolve_list;
use crate::resolve::resolve_name_list;
use crate::resolve::view_indices;

verus! {

/// Capability contract for the game-specific state stored on a territory:
/// it must render itself for display. Together with `Clone` and `Default`
/// this is all the loader asks of a payload type.
pub trait BoardSpot {
    fn svg(&self) -> String;
}

/// Mathematical image of one territory: names as character sequences,
/// connections as integer indices.
#[verifier::ext_equal]
pub struct TerritoryV {
    pub name: Seq<char>,
    pub name_short: Seq<char>,
    pub connections_to: Seq<int>,
    pub connections_to_secondary: Seq<int>,
    pub auto_deploy: Option<i16>,
    pub init_neutral: Option<i16>,
    pub revert_neutral: Option<i16>,
}

/// A single territory on the map. `T` is the game-specific type for
/// whatever is stored on a territory.
pub struct MapTerritory<T> where T: Clone + BoardSpot + Default {
    pub(crate) name: String,
    pub(crate) name_short: String,
    pub(crate) connections_to: Vec<usize>,
    pub(crate) connections_to_secondary: Vec<usize>,
    pub(crate) current: T,
    pub(crate) auto_deploy: Option<i16>,
    pub(crate) init_neutral: Option<i16>,
    pub(crate) revert_neutral: Option<i16>,
}

impl<T: Clone + BoardSpot + Default> View for MapTerritory<T> {
    type V = TerritoryV;

    closed spec fn view(&self) -> TerritoryV {
        TerritoryV {
            name: self.name@,
            name_short: self.name_short@,
            connections_to: view_indices(self.connections_to@),
            connections_to_secondary: view_indices(self.connections_to_secondary@),
            auto_deploy: self.auto_deploy,
            init_neutral: self.init_neutral,
            revert_neutral: self.revert_neutral,
        }
    }
}

/// The `canAttack` reference list of a territory entry, when present and a
/// sequence.
pub open spec fn spec_attacks(e: DocNode) -> Option<Seq<DocNode>> {
    crate::doc::spec_entries(e, "canAttack"@)
}

/// The territory a well-formed entry describes: required short name, display
/// name defaulting to it, and every `canAttack` reference resolved to an
/// index. Everything else stays at its unset default.
pub open spec fn spec_territory(e: DocNode, names: Seq<Seq<char>>) -> Result<
    TerritoryV,
    LoadErrorV,
> {
    if !(e is Mapping) {
        Err(LoadErrorV::EntryNotMapping)
    } else {
        match spec_entry_name(e) {
            None => Err(LoadErrorV::TerritoryMissingName),
            Some(short) => {
                let display = match spec_str_field(e, "fullName"@) {
                    Some(f) => f,
                    None => short,
                };
                match spec_attacks(e) {
                    Some(items) => match spec_resolve_list(
                        items,
                        names,
                        LoadErrorV::CanAttackEntryNotText,
                    ) {
                        Err(er) => Err(er),
                        Ok(conns) => Ok(
                            TerritoryV {
                                name: display,
                                name_short: short,
                                connections_to: conns,
                                connections_to_secondary: Seq::empty(),
                                auto_deploy: None,
                                init_neutral: None,
                                revert_neutral: None,
                            },
                        ),
                    },
                    None => Err(LoadErrorV::CanAttackNotSequence),
                }
            },
        }
    }
}

impl<T: Clone + BoardSpot + Default> MapTerritory<T> {
    /// Set basic info for a territory: display name, short name, everything
    /// else empty or unset, the payload at its default.
    pub fn territory_builder(name: String, name_short: String) -> (r: MapTerritory<T>)
        ensures
            r@ == (TerritoryV {
                name: name@,
                name_short: name_short@,
                connections_to: Seq::empty(),
                connections_to_secondary: Seq::empty(),
                auto_deploy: None,
                init_neutral: None,
                revert_neutral: None,
            }),
    {
        let r = MapTerritory {
            name,
            name_short,
            connections_to: Vec::new(),
            connections_to_secondary: Vec::new(),
            current: Default::default(),
            auto_deploy: None,
            init_neutral: None,
            revert_neutral: None,
        };
        proof {
            assert(r@.connections_to =~= Seq::<int>::empty());
            assert(r@.connections_to_secondary =~= Seq::<int>::empty());
        }
        r
    }

    /// The stable identifier used for cross-references.
    pub fn get_short_name(&self) -> (r: &String)
        ensures
            r@ == self@.name_short,
    {
        &self.name_short
    }

    /// The display name; equals the short name when none was given.
    pub fn get_name(&self) -> (r: &String)
        ensures
            r@ == self@.name,
    {
        &self.name
    }

    /// The resolved attack edges, as indices into the board's territory
    /// list.
    pub fn get_connections(&self) -> (r: &Vec<usize>)
        ensures
            view_indices(r@) == self@.connections_to,
    {
        &self.connections_to
    }

    /// Build one territory from its document entry, resolving every
    /// `canAttack` name against the collected short names.
    pub fn build_territory(e: &DocNode, names: &Vec<String>) -> (r: Result<
        MapTerritory<T>,
        LoadError,
    >)
        ensures
            match r {
                Ok(t) => spec_territory(*e, names.deep_view()) == Ok::<TerritoryV, LoadErrorV>(t@),
                Err(er) => spec_territory(*e, names.deep_view()) == Err::<TerritoryV, LoadErrorV>(
                    er@,
                ),
            },
    {
        let is_mapping: bool = match e {
            DocNode::Mapping(_) => true,
            _ => false,
        };
        if !is_mapping {
            return Err(LoadError::EntryNotMapping);
        }
        let short: String = match get_str_field(e, "name") {
            Some(s) => s.clone(),
            None => {
                return Err(LoadError::TerritoryMissingName);
            },
        };
        let display: String = match get_str_field(e, "fullName") {
            Some(f) => f.clone(),
            None => short.clone(),
        };
        let items: &Vec<DocNode> = match get_seq_field(e, "canAttack") {
            Some(v) => v,
            None => {
                return Err(LoadError::CanAttackNotSequence);
            },
        };
        let mut t = MapTerritory::<T>::territory_builder(display, short);
        match resolve_name_list(items, names, LoadError::CanAttackEntryNotText) {
            Err(er) => Err(er),
            Ok(ixs) => {
                t.connections_to = ixs;
                Ok(t)
            },
        }
    }
}

} // verus!
