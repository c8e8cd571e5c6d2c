//! The failure taxonomy of a load: every way a document can be rejected,
//! distinguishable by kind, with the offending short name kept verbatim for
//! reference errors.

use vstd::prelude::*;
use vstd::string::StringExecFns;

verus! {

/// Why a load was aborted. `UnknownName` carries the literal unresolved
/// short name; every other variant is a schema or format failure.
#[derive(Debug)]
pub enum LoadError {
    /// The source did not parse as a structured document.
    InvalidDocument,
    /// The top-level node is not a mapping.
    NotMapping,
    /// The `territories` key is absent or not a sequence.
    TerritoriesNotSequence,
    /// A territory or region entry is not a mapping.
    EntryNotMapping,
    /// A territory entry has no text `name` field.
    TerritoryMissingName,
    /// A territory's `canAttack` key is absent or not a sequence.
    CanAttackNotSequence,
    /// An element of `canAttack` is not a text scalar.
    CanAttackEntryNotText,
    /// The `regions` key is absent or not a sequence.
    RegionsNotSequence,
    /// A region entry has no text `name` field.
    RegionMissingName,
    /// A region's `territories` key is absent or not a sequence.
    MembersNotSequence,
    /// An element of a region's `territories` is not a text scalar.
    MemberEntryNotText,
    /// A `canAttack` or region `territories` element names no territory.
    UnknownName(String),
}

/// Mathematical image of `LoadError`: the carried name as a character
/// sequence.
pub enum LoadErrorV {
    InvalidDocument,
    NotMapping,
    TerritoriesNotSequence,
    EntryNotMapping,
    TerritoryMissingName,
    CanAttackNotSequence,
    CanAttackEntryNotText,
    RegionsNotSequence,
    RegionMissingName,
    MembersNotSequence,
    MemberEntryNotText,
    UnknownName(Seq<char>),
}

impl View for LoadError {
    type V = LoadErrorV;

    open spec fn view(&self) -> LoadErrorV {
        match self {
            LoadError::InvalidDocument => LoadErrorV::InvalidDocument,
            LoadError::NotMapping => LoadErrorV::NotMapping,
            LoadError::TerritoriesNotSequence => LoadErrorV::TerritoriesNotSequence,
            LoadError::EntryNotMapping => LoadErrorV::EntryNotMapping,
            LoadError::TerritoryMissingName => LoadErrorV::TerritoryMissingName,
            LoadError::CanAttackNotSequence => LoadErrorV::CanAttackNotSequence,
            LoadError::CanAttackEntryNotText => LoadErrorV::CanAttackEntryNotText,
            LoadError::RegionsNotSequence => LoadErrorV::RegionsNotSequence,
            LoadError::RegionMissingName => LoadErrorV::RegionMissingName,
            LoadError::MembersNotSequence => LoadErrorV::MembersNotSequence,
            LoadError::MemberEntryNotText => LoadErrorV::MemberEntryNotText,
            LoadError::UnknownName(n) => LoadErrorV::UnknownName(n@),
        }
    }
}

/// The human-readable description of each failure. A reference error ends
/// with the unresolved name itself.
pub open spec fn spec_message(e: LoadErrorV) -> Seq<char> {
    match e {
        LoadErrorV::InvalidDocument => "Invalid YAML tree"@,
        LoadErrorV::NotMapping => "Top YAML tree is not a hash."@,
        LoadErrorV::TerritoriesNotSequence => "'territories' does not contain a list"@,
        LoadErrorV::EntryNotMapping => "'territory' item is not a dictionary"@,
        LoadErrorV::TerritoryMissingName => "Territory has no name."@,
        LoadErrorV::CanAttackNotSequence => "canAttack must be a list"@,
        LoadErrorV::CanAttackEntryNotText => "Something in 'canAttack' is not a string"@,
        LoadErrorV::RegionsNotSequence => "'regions' does not contain a list"@,
        LoadErrorV::RegionMissingName => "Region has no name."@,
        LoadErrorV::MembersNotSequence => "territories must be a list"@,
        LoadErrorV::MemberEntryNotText => "Something in 'territories' is not a string"@,
        LoadErrorV::UnknownName(n) => "Not a short name: "@ + n,
    }
}

impl LoadError {
    /// Render the failure for a user.
    pub fn message(&self) -> (r: String)
        ensures
            r@ == spec_message(self@),
    {
        match self {
            LoadError::InvalidDocument => String::from_str("Invalid YAML tree"),
            LoadError::NotMapping => String::from_str("Top YAML tree is not a hash."),
            LoadError::TerritoriesNotSequence => String::from_str(
                "'territories' does not contain a list",
            ),
            LoadError::EntryNotMapping => String::from_str("'territory' item is not a dictionary"),
            LoadError::TerritoryMissingName => String::from_str("Territory has no name."),
            LoadError::CanAttackNotSequence => String::from_str("canAttack must be a list"),
            LoadError::CanAttackEntryNotText => String::from_str(
                "Something in 'canAttack' is not a string",
            ),
            LoadError::RegionsNotSequence => String::from_str("'regions' does not contain a list"),
            LoadError::RegionMissingName => String::from_str("Region has no name."),
            LoadError::MembersNotSequence => String::from_str("territories must be a list"),
            LoadError::MemberEntryNotText => String::from_str(
                "Something in 'territories' is not a string",
            ),
            LoadError::UnknownName(n) => {
                let mut s = String::from_str("Not a short name: ");
                s.append(n.as_str());
                s
            },
        }
    }
}

} // verus!
