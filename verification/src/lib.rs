//! Loader for the topology of a territory-conquest game board.
//!
//! A structured document (mappings, sequences, scalars) describes territories
//! and bonus regions by short name; the loader validates the document,
//! resolves every cross-reference to a positional index in two passes, and
//! either yields a complete `GameBoard` or a typed error.

mod doc;
mod errors;
mod resolve;
mod territory;
mod region;
mod board;
mod yaml_doc;
mod laws;

pub use yaml_doc::parsed_doc;

pub use laws::lemma_territory_count_and_order;
pub use laws::lemma_connections_refer_by_name;
pub use laws::lemma_members_refer_by_name;
pub use laws::lemma_board_indices_valid;
pub use laws::lemma_duplicate_name_later_wins;
pub use laws::lemma_missing_name_is_error;
pub use laws::lemma_unknown_attack_is_error;
pub use laws::lemma_unknown_member_is_error;
pub use laws::lemma_wf_doc_builds;
pub use laws::lemma_first_unknown_attack_reported;
pub use laws::lemma_first_unknown_member_reported;
pub use laws::lemma_reference_error_names_offender;
pub use laws::lemma_territory_display_defaults;
pub use laws::lemma_region_display_defaults;
pub use laws::lemma_bonus_defaults;

pub use board::GameBoard;
pub use board::BoardV;
pub use board::spec_build_board;
pub use board::spec_territories;
pub use board::spec_regions;
pub use board::territory_views;
pub use board::region_views;
pub use board::known_name;
pub use board::wf_reference_list;
pub use board::wf_territory_entry;
pub use board::wf_region_entry;
pub use board::spec_doc_wf;

pub use region::RegionBonusType;
pub use region::BonusRegion;
pub use region::BonusV;
pub use region::RegionV;
pub use region::spec_region;
pub use territory::BoardSpot;
pub use territory::MapTerritory;
pub use territory::TerritoryV;
pub use territory::spec_territory;

pub use resolve::spec_entry_name;
pub use resolve::spec_names;
pub use resolve::spec_resolve;
pub use resolve::spec_resolve_list;
pub use resolve::collect_names;
pub use resolve::resolve;
pub use resolve::lemma_resolve_some;
pub use resolve::lemma_resolve_finds_last;

pub use errors::LoadError;
pub use errors::LoadErrorV;
pub use errors::spec_message;
pub use doc::DocNode;
pub use doc::doc_get;
pub use doc::as_text;
pub use doc::get_str_field;
pub use doc::get_int_field;
pub use doc::get_seq_field;
pub use doc::spec_text;
pub use doc::spec_lookup;
pub use doc::spec_field;
pub use doc::spec_str_field;
pub use doc::spec_int_field;
pub use doc::spec_entries;
pub use resolve::view_indices;
pub use territory::spec_attacks;
pub use region::spec_members;
