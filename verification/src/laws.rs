//! The guarantees a built board gives, stated once and proved: counts and
//! order, referential integrity of every stored index, last-write-wins name
//! resolution, and the defaulting rules.

use vstd::prelude::*;
use crate::doc::DocNode;
use crate::doc::spec_text;
use crate::doc::spec_str_field;
use crate::doc::spec_int_field;
use crate::doc::spec_entries;
use crate::errors::LoadErrorV;
use crate::errors::spec_message;
use crate::resolve::spec_entry_name;
use crate::resolve::spec_names;
use crate::resolve::spec_resolve;
use crate::resolve::spec_resolve_list;
use crate::resolve::lemma_resolve_some;
use crate::resolve::lemma_resolve_finds_last;
use crate::resolve::lemma_resolve_list_err;
use crate::board::lemma_territories_err;
use crate::board::lemma_regions_err;
use crate::territory::TerritoryV;
use crate::territory::spec_territory;
use crate::territory::spec_attacks;
use crate::region::RegionV;
use crate::region::BonusV;
use crate::region::spec_region;
use crate::board::BoardV;
use crate::board::spec_territories;
use crate::board::spec_regions;
use crate::board::spec_build_board;
use crate::board::wf_reference_list;
use crate::board::wf_territory_entry;
use crate::board::wf_region_entry;
use crate::board::spec_doc_wf;

verus! {

/// Pass one, when it succeeds, yields exactly one short name per entry, in
/// order.
proof fn lemma_names_shape(entries: Seq<DocNode>, ns: Seq<Seq<char>>)
    requires
        spec_names(entries) == Ok::<Seq<Seq<char>>, LoadErrorV>(ns),
    ensures
        ns.len() == entries.len(),
        forall|i: int| 0 <= i < entries.len() ==> spec_entry_name(#[trigger] entries[i]) == Some(
            ns[i],
        ),
    decreases entries.len(),
{
    if entries.len() > 0 {
        match spec_names(entries.drop_last()) {
            Ok(prefix) => {
                lemma_names_shape(entries.drop_last(), prefix);
                assert(forall|i: int|
                    0 <= i < entries.len() - 1 ==> #[trigger] entries[i] == entries.drop_last()[i]);
            },
            Err(_) => {
                assert(false);
            },
        }
    }
}

/// A resolved reference list, when it succeeds, resolves each element in
/// order.
proof fn lemma_resolve_list_shape(
    items: Seq<DocNode>,
    names: Seq<Seq<char>>,
    text_err: LoadErrorV,
    ixs: Seq<int>,
)
    requires
        spec_resolve_list(items, names, text_err) == Ok::<Seq<int>, LoadErrorV>(ixs),
    ensures
        ixs.len() == items.len(),
        forall|k: int|
            0 <= k < items.len() ==> (spec_text(#[trigger] items[k]) matches Some(s)
                && spec_resolve(names, s) == Some(ixs[k])),
    decreases items.len(),
{
    if items.len() > 0 {
        match spec_resolve_list(items.drop_last(), names, text_err) {
            Ok(prefix) => {
                lemma_resolve_list_shape(items.drop_last(), names, text_err, prefix);
                assert(forall|k: int|
                    0 <= k < items.len() - 1 ==> #[trigger] items[k] == items.drop_last()[k]);
            },
            Err(_) => {
                assert(false);
            },
        }
    }
}

/// Pass two, when it succeeds, builds exactly one territory per entry, in
/// order.
proof fn lemma_territories_shape(entries: Seq<DocNode>, names: Seq<Seq<char>>, tvs: Seq<TerritoryV>)
    requires
        spec_territories(entries, names) == Ok::<Seq<TerritoryV>, LoadErrorV>(tvs),
    ensures
        tvs.len() == entries.len(),
        forall|i: int| 0 <= i < entries.len() ==> spec_territory(#[trigger] entries[i], names)
            == Ok::<TerritoryV, LoadErrorV>(tvs[i]),
    decreases entries.len(),
{
    if entries.len() > 0 {
        match spec_territories(entries.drop_last(), names) {
            Ok(prefix) => {
                lemma_territories_shape(entries.drop_last(), names, prefix);
                assert(forall|i: int|
                    0 <= i < entries.len() - 1 ==> #[trigger] entries[i] == entries.drop_last()[i]);
            },
            Err(_) => {
                assert(false);
            },
        }
    }
}

/// The region pass, when it succeeds, builds exactly one region per entry,
/// in order.
proof fn lemma_regions_shape(entries: Seq<DocNode>, names: Seq<Seq<char>>, rvs: Seq<RegionV>)
    requires
        spec_regions(entries, names) == Ok::<Seq<RegionV>, LoadErrorV>(rvs),
    ensures
        rvs.len() == entries.len(),
        forall|i: int| 0 <= i < entries.len() ==> spec_region(#[trigger] entries[i], names) == Ok::<
            RegionV,
            LoadErrorV,
        >(rvs[i]),
    decreases entries.len(),
{
    if entries.len() > 0 {
        match spec_regions(entries.drop_last(), names) {
            Ok(prefix) => {
                lemma_regions_shape(entries.drop_last(), names, prefix);
                assert(forall|i: int|
                    0 <= i < entries.len() - 1 ==> #[trigger] entries[i] == entries.drop_last()[i]);
            },
            Err(_) => {
                assert(false);
            },
        }
    }
}

/// Pass one succeeds on entries that are all mappings carrying a name.
proof fn lemma_names_complete(entries: Seq<DocNode>)
    requires
        forall|i: int|
            0 <= i < entries.len() ==> ((#[trigger] entries[i]) is Mapping && spec_entry_name(
                entries[i],
            ) is Some),
    ensures
        spec_names(entries) is Ok,
    decreases entries.len(),
{
    if entries.len() > 0 {
        assert(forall|i: int|
            0 <= i < entries.len() - 1 ==> #[trigger] entries.drop_last()[i] == entries[i]);
        lemma_names_complete(entries.drop_last());
    }
}

/// Every element of a well-formed reference list resolves, so the whole
/// list does.
proof fn lemma_resolve_list_complete(
    items: Seq<DocNode>,
    t_entries: Seq<DocNode>,
    names: Seq<Seq<char>>,
    text_err: LoadErrorV,
)
    requires
        spec_names(t_entries) == Ok::<Seq<Seq<char>>, LoadErrorV>(names),
        wf_reference_list(items, t_entries),
    ensures
        spec_resolve_list(items, names, text_err) is Ok,
    decreases items.len(),
{
    if items.len() > 0 {
        assert(forall|j: int|
            0 <= j < items.len() - 1 ==> #[trigger] items.drop_last()[j] == items[j]);
        assert(wf_reference_list(items.drop_last(), t_entries));
        lemma_resolve_list_complete(items.drop_last(), t_entries, names, text_err);
        assert(items.last() == items[items.len() - 1]);
        let s = spec_text(items.last())->0;
        let k = choose|k: int|
            0 <= k < t_entries.len() && spec_entry_name(#[trigger] t_entries[k]) == Some(s);
        lemma_names_shape(t_entries, names);
        lemma_resolve_finds_last(names, s, k);
    }
}

/// Pass two succeeds when every entry builds a territory.
proof fn lemma_territories_complete(entries: Seq<DocNode>, names: Seq<Seq<char>>)
    requires
        forall|i: int|
            0 <= i < entries.len() ==> spec_territory(#[trigger] entries[i], names) is Ok,
    ensures
        spec_territories(entries, names) is Ok,
    decreases entries.len(),
{
    if entries.len() > 0 {
        assert(forall|i: int|
            0 <= i < entries.len() - 1 ==> #[trigger] entries.drop_last()[i] == entries[i]);
        lemma_territories_complete(entries.drop_last(), names);
    }
}

/// The region pass succeeds when every entry builds a region.
proof fn lemma_regions_complete(entries: Seq<DocNode>, names: Seq<Seq<char>>)
    requires
        forall|i: int| 0 <= i < entries.len() ==> spec_region(#[trigger] entries[i], names) is Ok,
    ensures
        spec_regions(entries, names) is Ok,
    decreases entries.len(),
{
    if entries.len() > 0 {
        assert(forall|i: int|
            0 <= i < entries.len() - 1 ==> #[trigger] entries.drop_last()[i] == entries[i]);
        lemma_regions_complete(entries.drop_last(), names);
    }
}

/// Success is owed: a well-formed document always builds a board.
pub proof fn lemma_wf_doc_builds(doc: DocNode)
    requires
        spec_doc_wf(doc),
    ensures
        spec_build_board(doc) is Ok,
{
    let t_entries = spec_entries(doc, "territories"@)->0;
    let r_entries = spec_entries(doc, "regions"@)->0;
    assert(forall|i: int|
        0 <= i < t_entries.len() ==> ((#[trigger] t_entries[i]) is Mapping && spec_entry_name(
            t_entries[i],
        ) is Some));
    lemma_names_complete(t_entries);
    let names = spec_names(t_entries)->Ok_0;
    assert forall|i: int|
        0 <= i < t_entries.len() implies spec_territory(
        #[trigger] t_entries[i],
        names,
    ) is Ok by {
        assert(wf_territory_entry(t_entries[i], t_entries));
        let items = spec_attacks(t_entries[i])->0;
        lemma_resolve_list_complete(items, t_entries, names, LoadErrorV::CanAttackEntryNotText);
    }
    lemma_territories_complete(t_entries, names);
    assert forall|i: int|
        0 <= i < r_entries.len() implies spec_region(#[trigger] r_entries[i], names) is Ok by {
        assert(wf_region_entry(r_entries[i], t_entries));
        let items = crate::region::spec_members(r_entries[i])->0;
        lemma_resolve_list_complete(items, t_entries, names, LoadErrorV::MemberEntryNotText);
    }
    lemma_regions_complete(r_entries, names);
}

/// A well-formed document builds one territory per territory entry, in
/// document order: territory `i` carries entry `i`'s short name.
pub proof fn lemma_territory_count_and_order(doc: DocNode, bv: BoardV, t_entries: Seq<DocNode>)
    requires
        spec_build_board(doc) == Ok::<BoardV, LoadErrorV>(bv),
        spec_entries(doc, "territories"@) == Some(t_entries),
    ensures
        bv.territories.len() == t_entries.len(),
        forall|i: int| 0 <= i < t_entries.len() ==> spec_entry_name(#[trigger] t_entries[i])
            == Some(bv.territories[i].name_short),
{
    let names = spec_names(t_entries)->Ok_0;
    lemma_names_shape(t_entries, names);
    lemma_territories_shape(t_entries, names, bv.territories);
    assert forall|i: int| 0 <= i < t_entries.len() implies spec_entry_name(
        #[trigger] t_entries[i],
    ) == Some(bv.territories[i].name_short) by {
        assert(spec_territory(t_entries[i], names) == Ok::<TerritoryV, LoadErrorV>(
            bv.territories[i],
        ));
    }
}

/// Referential integrity of attack edges: every resolved index in a built
/// territory's `connections_to` is in range and refers to the territory
/// whose short name is the original reference string.
pub proof fn lemma_connections_refer_by_name(
    doc: DocNode,
    bv: BoardV,
    t_entries: Seq<DocNode>,
    ti: int,
    ci: int,
)
    requires
        spec_build_board(doc) == Ok::<BoardV, LoadErrorV>(bv),
        spec_entries(doc, "territories"@) == Some(t_entries),
        0 <= ti < bv.territories.len(),
        0 <= ci < bv.territories[ti].connections_to.len(),
    ensures
        ({
            let j = bv.territories[ti].connections_to[ci];
            &&& 0 <= j < bv.territories.len()
            &&& spec_attacks(t_entries[ti]) matches Some(items) && spec_text(items[ci]) == Some(
                bv.territories[j].name_short,
            )
        }),
{
    let names = spec_names(t_entries)->Ok_0;
    lemma_names_shape(t_entries, names);
    lemma_territories_shape(t_entries, names, bv.territories);
    assert(spec_territory(t_entries[ti], names) == Ok::<TerritoryV, LoadErrorV>(
        bv.territories[ti],
    ));
    let items = spec_attacks(t_entries[ti])->0;
    lemma_resolve_list_shape(
        items,
        names,
        LoadErrorV::CanAttackEntryNotText,
        bv.territories[ti].connections_to,
    );
    let s = spec_text(items[ci])->0;
    lemma_resolve_some(names, s);
    let j = bv.territories[ti].connections_to[ci];
    assert(spec_entry_name(t_entries[j]) == Some(names[j]));
    assert(spec_territory(t_entries[j], names) == Ok::<TerritoryV, LoadErrorV>(bv.territories[j]));
}

/// Referential integrity of region membership: every resolved index in a
/// built region's member list is in range and refers to the territory whose
/// short name is the original reference string.
pub proof fn lemma_members_refer_by_name(
    doc: DocNode,
    bv: BoardV,
    t_entries: Seq<DocNode>,
    r_entries: Seq<DocNode>,
    ri: int,
    mi: int,
)
    requires
        spec_build_board(doc) == Ok::<BoardV, LoadErrorV>(bv),
        spec_entries(doc, "territories"@) == Some(t_entries),
        spec_entries(doc, "regions"@) == Some(r_entries),
        0 <= ri < bv.regions.len(),
        0 <= mi < bv.regions[ri].territories.len(),
    ensures
        ({
            let j = bv.regions[ri].territories[mi];
            &&& 0 <= j < bv.territories.len()
            &&& crate::region::spec_members(r_entries[ri]) matches Some(items) && spec_text(
                items[mi],
            ) == Some(bv.territories[j].name_short)
        }),
{
    let names = spec_names(t_entries)->Ok_0;
    lemma_names_shape(t_entries, names);
    lemma_territories_shape(t_entries, names, bv.territories);
    lemma_regions_shape(r_entries, names, bv.regions);
    assert(spec_region(r_entries[ri], names) == Ok::<RegionV, LoadErrorV>(bv.regions[ri]));
    let items = crate::region::spec_members(r_entries[ri])->0;
    lemma_resolve_list_shape(
        items,
        names,
        LoadErrorV::MemberEntryNotText,
        bv.regions[ri].territories,
    );
    let s = spec_text(items[mi])->0;
    lemma_resolve_some(names, s);
    let j = bv.regions[ri].territories[mi];
    assert(spec_entry_name(t_entries[j]) == Some(names[j]));
    assert(spec_territory(t_entries[j], names) == Ok::<TerritoryV, LoadErrorV>(bv.territories[j]));
}

/// The board invariant: every index stored in a built board — attack edges
/// and region members alike — is a valid position in its territory list.
pub proof fn lemma_board_indices_valid(
    doc: DocNode,
    bv: BoardV,
    t_entries: Seq<DocNode>,
    r_entries: Seq<DocNode>,
)
    requires
        spec_build_board(doc) == Ok::<BoardV, LoadErrorV>(bv),
        spec_entries(doc, "territories"@) == Some(t_entries),
        spec_entries(doc, "regions"@) == Some(r_entries),
    ensures
        forall|ti: int, ci: int|
            0 <= ti < bv.territories.len() && 0 <= ci < bv.territories[ti].connections_to.len()
                ==> 0 <= #[trigger] bv.territories[ti].connections_to[ci] < bv.territories.len(),
        forall|ri: int, mi: int|
            0 <= ri < bv.regions.len() && 0 <= mi < bv.regions[ri].territories.len() ==> 0 <= (
            #[trigger] bv.regions[ri].territories[mi]) < bv.territories.len(),
{
    assert forall|ti: int, ci: int|
        0 <= ti < bv.territories.len() && 0 <= ci
            < bv.territories[ti].connections_to.len() implies 0 <= (
    #[trigger] bv.territories[ti].connections_to[ci]) < bv.territories.len() by {
        lemma_connections_refer_by_name(doc, bv, t_entries, ti, ci);
    }
    assert forall|ri: int, mi: int|
        0 <= ri < bv.regions.len() && 0 <= mi < bv.regions[ri].territories.len() implies 0 <= (
    #[trigger] bv.regions[ri].territories[mi]) < bv.territories.len() by {
        lemma_members_refer_by_name(doc, bv, t_entries, r_entries, ri, mi);
    }
}

/// Last write wins: when two positions carry the same short name, the name
/// resolves to a position no earlier than the later of them — the earlier
/// territory stays on the board but becomes unreachable by name.
pub proof fn lemma_duplicate_name_later_wins(
    names: Seq<Seq<char>>,
    target: Seq<char>,
    i: int,
    j: int,
)
    requires
        0 <= i < j < names.len(),
        names[i] == target,
        names[j] == target,
    ensures
        spec_resolve(names, target) matches Some(k) && j <= k < names.len() && names[k] == target,
{
    lemma_resolve_finds_last(names, target, j);
    lemma_resolve_some(names, target);
}

/// A territory entry without a usable `name` aborts the whole load: no
/// board is produced.
pub proof fn lemma_missing_name_is_error(doc: DocNode, t_entries: Seq<DocNode>, k: int)
    requires
        spec_entries(doc, "territories"@) == Some(t_entries),
        0 <= k < t_entries.len(),
        spec_entry_name(t_entries[k]) is None,
    ensures
        spec_build_board(doc) is Err,
{
    if doc is Mapping {
        match spec_names(t_entries) {
            Ok(ns) => {
                lemma_names_shape(t_entries, ns);
                assert(false);
            },
            Err(_) => {},
        }
    }
}

/// A `canAttack` reference to a short name no territory carries aborts the
/// whole load: no board is produced.
pub proof fn lemma_unknown_attack_is_error(
    doc: DocNode,
    t_entries: Seq<DocNode>,
    ti: int,
    ci: int,
    s: Seq<char>,
)
    requires
        spec_entries(doc, "territories"@) == Some(t_entries),
        spec_names(t_entries) is Ok,
        0 <= ti < t_entries.len(),
        spec_attacks(t_entries[ti]) matches Some(items) && 0 <= ci < items.len() && spec_text(
            items[ci],
        ) == Some(s),
        spec_resolve(spec_names(t_entries)->Ok_0, s) is None,
    ensures
        spec_build_board(doc) is Err,
{
    let names = spec_names(t_entries)->Ok_0;
    match spec_territories(t_entries, names) {
        Ok(tvs) => {
            lemma_territories_shape(t_entries, names, tvs);
            assert(spec_territory(t_entries[ti], names) == Ok::<TerritoryV, LoadErrorV>(tvs[ti]));
            let items = spec_attacks(t_entries[ti])->0;
            match spec_resolve_list(items, names, LoadErrorV::CanAttackEntryNotText) {
                Ok(ixs) => {
                    lemma_resolve_list_shape(
                        items,
                        names,
                        LoadErrorV::CanAttackEntryNotText,
                        ixs,
                    );
                    assert(false);
                },
                Err(_) => {
                    assert(false);
                },
            }
        },
        Err(_) => {},
    }
}

/// A region `territories` reference to a short name no territory carries
/// aborts the whole load: no board is produced.
pub proof fn lemma_unknown_member_is_error(
    doc: DocNode,
    t_entries: Seq<DocNode>,
    r_entries: Seq<DocNode>,
    ri: int,
    mi: int,
    s: Seq<char>,
)
    requires
        spec_entries(doc, "territories"@) == Some(t_entries),
        spec_entries(doc, "regions"@) == Some(r_entries),
        spec_names(t_entries) is Ok,
        0 <= ri < r_entries.len(),
        crate::region::spec_members(r_entries[ri]) matches Some(items) && 0 <= mi < items.len()
            && spec_text(items[mi]) == Some(s),
        spec_resolve(spec_names(t_entries)->Ok_0, s) is None,
    ensures
        spec_build_board(doc) is Err,
{
    let names = spec_names(t_entries)->Ok_0;
    if doc is Mapping && spec_territories(t_entries, names) is Ok {
        match spec_regions(r_entries, names) {
            Ok(rvs) => {
                lemma_regions_shape(r_entries, names, rvs);
                assert(spec_region(r_entries[ri], names) == Ok::<RegionV, LoadErrorV>(rvs[ri]));
                let items = crate::region::spec_members(r_entries[ri])->0;
                match spec_resolve_list(items, names, LoadErrorV::MemberEntryNotText) {
                    Ok(ixs) => {
                        lemma_resolve_list_shape(
                            items,
                            names,
                            LoadErrorV::MemberEntryNotText,
                            ixs,
                        );
                        assert(false);
                    },
                    Err(_) => {
                        assert(false);
                    },
                }
            },
            Err(_) => {},
        }
    }
}

/// A reference list whose first `n` elements resolve has an `Ok` prefix.
proof fn lemma_resolve_list_prefix_ok(
    items: Seq<DocNode>,
    names: Seq<Seq<char>>,
    text_err: LoadErrorV,
    n: int,
)
    requires
        0 <= n <= items.len(),
        forall|j: int|
            0 <= j < n ==> (spec_text(#[trigger] items[j]) matches Some(t) && spec_resolve(
                names,
                t,
            ) is Some),
    ensures
        spec_resolve_list(items.take(n), names, text_err) is Ok,
    decreases n,
{
    if n > 0 {
        assert(items.take(n).drop_last() =~= items.take(n - 1));
        lemma_resolve_list_prefix_ok(items, names, text_err, n - 1);
        assert(items.take(n).last() == items[n - 1]);
    }
}

/// A territory pass whose first `n` entries build has an `Ok` prefix.
proof fn lemma_territories_prefix_ok(entries: Seq<DocNode>, names: Seq<Seq<char>>, n: int)
    requires
        0 <= n <= entries.len(),
        forall|i: int| 0 <= i < n ==> spec_territory(#[trigger] entries[i], names) is Ok,
    ensures
        spec_territories(entries.take(n), names) is Ok,
    decreases n,
{
    if n > 0 {
        assert(entries.take(n).drop_last() =~= entries.take(n - 1));
        lemma_territories_prefix_ok(entries, names, n - 1);
        assert(entries.take(n).last() == entries[n - 1]);
    }
}

/// A region pass whose first `n` entries build has an `Ok` prefix.
proof fn lemma_regions_prefix_ok(entries: Seq<DocNode>, names: Seq<Seq<char>>, n: int)
    requires
        0 <= n <= entries.len(),
        forall|i: int| 0 <= i < n ==> spec_region(#[trigger] entries[i], names) is Ok,
    ensures
        spec_regions(entries.take(n), names) is Ok,
    decreases n,
{
    if n > 0 {
        assert(entries.take(n).drop_last() =~= entries.take(n - 1));
        lemma_regions_prefix_ok(entries, names, n - 1);
        assert(entries.take(n).last() == entries[n - 1]);
    }
}

/// The first unresolved `canAttack` reference is the failure reported: when
/// everything before it in document order builds, the load fails with
/// exactly that name's reference error.
pub proof fn lemma_first_unknown_attack_reported(
    doc: DocNode,
    t_entries: Seq<DocNode>,
    ti: int,
    ci: int,
    s: Seq<char>,
)
    requires
        doc is Mapping,
        spec_entries(doc, "territories"@) == Some(t_entries),
        spec_names(t_entries) is Ok,
        0 <= ti < t_entries.len(),
        forall|i: int|
            0 <= i < ti ==> spec_territory(#[trigger] t_entries[i], spec_names(t_entries)->Ok_0)
                is Ok,
        t_entries[ti] is Mapping,
        spec_entry_name(t_entries[ti]) is Some,
        spec_attacks(t_entries[ti]) matches Some(items) && 0 <= ci < items.len() && (forall|j: int|
            0 <= j < ci ==> (spec_text(#[trigger] items[j]) matches Some(t) && spec_resolve(
                spec_names(t_entries)->Ok_0,
                t,
            ) is Some)) && spec_text(items[ci]) == Some(s),
        spec_resolve(spec_names(t_entries)->Ok_0, s) is None,
    ensures
        spec_build_board(doc) == Err::<BoardV, LoadErrorV>(LoadErrorV::UnknownName(s)),
{
    let names = spec_names(t_entries)->Ok_0;
    let items = spec_attacks(t_entries[ti])->0;
    lemma_resolve_list_prefix_ok(items, names, LoadErrorV::CanAttackEntryNotText, ci);
    assert(items.take(ci + 1).drop_last() =~= items.take(ci));
    assert(items.take(ci + 1).last() == items[ci]);
    lemma_resolve_list_err(items, names, LoadErrorV::CanAttackEntryNotText, ci + 1);
    assert(spec_territory(t_entries[ti], names) == Err::<TerritoryV, LoadErrorV>(
        LoadErrorV::UnknownName(s),
    ));
    lemma_territories_prefix_ok(t_entries, names, ti);
    assert(t_entries.take(ti + 1).drop_last() =~= t_entries.take(ti));
    assert(t_entries.take(ti + 1).last() == t_entries[ti]);
    lemma_territories_err(t_entries, names, ti + 1);
}

/// The first unresolved region member is the failure reported: when every
/// territory builds and everything before the member in document order
/// resolves, the load fails with exactly that name's reference error.
pub proof fn lemma_first_unknown_member_reported(
    doc: DocNode,
    t_entries: Seq<DocNode>,
    r_entries: Seq<DocNode>,
    ri: int,
    mi: int,
    s: Seq<char>,
)
    requires
        doc is Mapping,
        spec_entries(doc, "territories"@) == Some(t_entries),
        spec_entries(doc, "regions"@) == Some(r_entries),
        spec_names(t_entries) is Ok,
        spec_territories(t_entries, spec_names(t_entries)->Ok_0) is Ok,
        0 <= ri < r_entries.len(),
        forall|i: int|
            0 <= i < ri ==> spec_region(#[trigger] r_entries[i], spec_names(t_entries)->Ok_0)
                is Ok,
        r_entries[ri] is Mapping,
        spec_entry_name(r_entries[ri]) is Some,
        crate::region::spec_members(r_entries[ri]) matches Some(items) && 0 <= mi < items.len()
            && (forall|j: int|
            0 <= j < mi ==> (spec_text(#[trigger] items[j]) matches Some(t) && spec_resolve(
                spec_names(t_entries)->Ok_0,
                t,
            ) is Some)) && spec_text(items[mi]) == Some(s),
        spec_resolve(spec_names(t_entries)->Ok_0, s) is None,
    ensures
        spec_build_board(doc) == Err::<BoardV, LoadErrorV>(LoadErrorV::UnknownName(s)),
{
    let names = spec_names(t_entries)->Ok_0;
    let items = crate::region::spec_members(r_entries[ri])->0;
    lemma_resolve_list_prefix_ok(items, names, LoadErrorV::MemberEntryNotText, mi);
    assert(items.take(mi + 1).drop_last() =~= items.take(mi));
    assert(items.take(mi + 1).last() == items[mi]);
    lemma_resolve_list_err(items, names, LoadErrorV::MemberEntryNotText, mi + 1);
    assert(spec_region(r_entries[ri], names) == Err::<RegionV, LoadErrorV>(
        LoadErrorV::UnknownName(s),
    ));
    lemma_regions_prefix_ok(r_entries, names, ri);
    assert(r_entries.take(ri + 1).drop_last() =~= r_entries.take(ri));
    assert(r_entries.take(ri + 1).last() == r_entries[ri]);
    lemma_regions_err(r_entries, names, ri + 1);
}

/// A reference error's message ends with the exact offending name.
pub proof fn lemma_reference_error_names_offender(n: Seq<char>)
    ensures
        ({
            let m = spec_message(LoadErrorV::UnknownName(n));
            m.len() >= n.len() && m.skip(m.len() - n.len()) == n
        }),
{
    let m = spec_message(LoadErrorV::UnknownName(n));
    assert(m.skip(m.len() - n.len()) =~= n);
}

/// A territory entry without `fullName` gets its short name as display
/// name.
pub proof fn lemma_territory_display_defaults(e: DocNode, names: Seq<Seq<char>>, tv: TerritoryV)
    requires
        spec_territory(e, names) == Ok::<TerritoryV, LoadErrorV>(tv),
        spec_str_field(e, "fullName"@) is None,
    ensures
        tv.name == tv.name_short,
{
}

/// A region entry without `fullName` gets its short name as display name.
pub proof fn lemma_region_display_defaults(e: DocNode, names: Seq<Seq<char>>, rv: RegionV)
    requires
        spec_region(e, names) == Ok::<RegionV, LoadErrorV>(rv),
        spec_str_field(e, "fullName"@) is None,
    ensures
        rv.name == rv.name_short,
{
}

/// A region entry without a usable `bonusForAll` gets the flat bonus 0.
pub proof fn lemma_bonus_defaults(e: DocNode, names: Seq<Seq<char>>, rv: RegionV)
    requires
        spec_region(e, names) == Ok::<RegionV, LoadErrorV>(rv),
        spec_int_field(e, "bonusForAll"@) is None,
    ensures
        rv.bonus_type == BonusV::BonusForAll(0i16),
{
}

} // verus!
