//! Bonus regions: named groups of territories that grant a reward when held,
//! with members stored as positional indices into the board's territory
//! list.

use vstd::prelude::*;
use crate::doc::DocNode;
use crate::doc::spec_str_field;
use crate::doc::spec_int_field;
use crate::doc::get_str_field;
use crate::doc::get_int_field;
use crate::doc::get_seq_field;
use crate::errors::LoadError;
use crate::errors::LoadErrorV;
use crate::resolve::spec_entry_name;
use crate::resolve::spec_resolve_list;
use crate::resolve::resolve_name_list;
use crate::resolve::view_indices;

verus! {

/// How a region rewards its holder: a flat bonus once every member is held,
/// or one scaling with the count of members held. The loader only ever
/// produces the flat kind; the scaling kind is part of the data model for
/// games that construct boards themselves.
pub enum RegionBonusType {
    BonusForAll(i16),
    GradiatedBonus(Vec<i16>),
}

/// Mathematical image of `RegionBonusType`.
#[verifier::ext_equal]
pub enum BonusV {
    BonusForAll(i16),
    GradiatedBonus(Seq<i16>),
}

impl View for RegionBonusType {
    type V = BonusV;

    closed spec fn view(&self) -> BonusV {
        match self {
            RegionBonusType::BonusForAll(v) => BonusV::BonusForAll(*v),
            RegionBonusType::GradiatedBonus(vs) => BonusV::GradiatedBonus(vs@),
        }
    }
}

/// Mathematical image of one bonus region.
#[verifier::ext_equal]
pub struct RegionV {
    pub name: Seq<char>,
    pub name_short: Seq<char>,
    pub bonus_type: BonusV,
    pub territories: Seq<int>,
}

/// A bonus region, which a player receives a bonus for holding all or part
/// of.
pub struct BonusRegion {
    pub(crate) name: String,
    pub(crate) name_short: String,
    pub(crate) bonus_type: RegionBonusType,
    pub(crate) territories: Vec<usize>,
}

impl View for BonusRegion {
    type V = RegionV;

    closed spec fn view(&self) -> RegionV {
        RegionV {
            name: self.name@,
            name_short: self.name_short@,
            bonus_type: self.bonus_type@,
            territories: view_indices(self.territories@),
        }
    }
}

/// The member list of a region entry, when present and a sequence.
pub open spec fn spec_members(e: DocNode) -> Option<Seq<DocNode>> {
    crate::doc::spec_entries(e, "territories"@)
}

/// The region a well-formed entry describes: required short name, display
/// name defaulting to it, `bonusForAll` defaulting to 0, and every member
/// name resolved to an index.
pub open spec fn spec_region(e: DocNode, names: Seq<Seq<char>>) -> Result<RegionV, LoadErrorV> {
    if !(e is Mapping) {
        Err(LoadErrorV::EntryNotMapping)
    } else {
        match spec_entry_name(e) {
            None => Err(LoadErrorV::RegionMissingName),
            Some(short) => {
                let display = match spec_str_field(e, "fullName"@) {
                    Some(f) => f,
                    None => short,
                };
                let bonus = match spec_int_field(e, "bonusForAll"@) {
                    Some(i) => i as i16,
                    None => 0i16,
                };
                match spec_members(e) {
                    Some(items) => match spec_resolve_list(
                        items,
                        names,
                        LoadErrorV::MemberEntryNotText,
                    ) {
                        Err(er) => Err(er),
                        Ok(members) => Ok(
                            RegionV {
                                name: display,
                                name_short: short,
                                bonus_type: BonusV::BonusForAll(bonus),
                                territories: members,
                            },
                        ),
                    },
                    None => Err(LoadErrorV::MembersNotSequence),
                }
            },
        }
    }
}

impl BonusRegion {
    /// The stable identifier used for cross-references.
    pub fn get_short_name(&self) -> (r: &String)
        ensures
            r@ == self@.name_short,
    {
        &self.name_short
    }

    /// The display name; equals the short name when none was given.
    pub fn get_name(&self) -> (r: &String)
        ensures
            r@ == self@.name,
    {
        &self.name
    }

    /// The reward rule of this region.
    pub fn get_bonus_type(&self) -> (r: &RegionBonusType)
        ensures
            r@ == self@.bonus_type,
    {
        &self.bonus_type
    }

    /// The member territories, as indices into the board's territory list.
    pub fn get_members(&self) -> (r: &Vec<usize>)
        ensures
            view_indices(r@) == self@.territories,
    {
        &self.territories
    }

    /// Build one bonus region from its document entry, resolving every
    /// member name against the collected territory short names.
    pub fn build_region(e: &DocNode, names: &Vec<String>) -> (r: Result<BonusRegion, LoadError>)
        ensures
            match r {
                Ok(reg) => spec_region(*e, names.deep_view()) == Ok::<RegionV, LoadErrorV>(reg@),
                Err(er) => spec_region(*e, names.deep_view()) == Err::<RegionV, LoadErrorV>(er@),
            },
    {
        let is_mapping: bool = match e {
            DocNode::Mapping(_) => true,
            _ => false,
        };
        if !is_mapping {
            return Err(LoadError::EntryNotMapping);
        }
        let short: String = match get_str_field(e, "name") {
            Some(s) => s.clone(),
            None => {
                return Err(LoadError::RegionMissingName);
            },
        };
        let display: String = match get_str_field(e, "fullName") {
            Some(f) => f.clone(),
            None => short.clone(),
        };
        let bonus: i16 = match get_int_field(e, "bonusForAll") {
            Some(i) => #[verifier::truncate] (i as i16),
            None => 0,
        };
        let items: &Vec<DocNode> = match get_seq_field(e, "territories") {
            Some(v) => v,
            None => {
                return Err(LoadError::MembersNotSequence);
            },
        };
        match resolve_name_list(items, names, LoadError::MemberEntryNotText) {
            Err(er) => Err(er),
            Ok(ixs) => Ok(
                BonusRegion {
                    name: display,
                    name_short: short,
                    bonus_type: RegionBonusType::BonusForAll(bonus),
                    territories: ixs,
                },
            ),
        }
    }
}

} // verus!
