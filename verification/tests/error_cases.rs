use map_game_board_rs::BoardSpot;
use map_game_board_rs::DocNode;
use map_game_board_rs::GameBoard;
use map_game_board_rs::LoadError;

#[derive(Clone, Default)]
struct Marker;

impl BoardSpot for Marker {
    fn svg(&self) -> String {
        "<svg></svg>".to_string()
    }
}

fn text(s: &str) -> DocNode {
    DocNode::Text(s.to_string())
}

fn pair(k: &str, v: DocNode) -> (DocNode, DocNode) {
    (text(k), v)
}

fn build(doc: &DocNode) -> LoadError {
    GameBoard::<Marker>::build_board(doc).map(|_| ()).unwrap_err()
}

#[test]
fn unparsable_source_is_invalid_document() {
    let err = GameBoard::<Marker>::load_from_str("territories: [unclosed").map(|_| ()).unwrap_err();
    assert!(matches!(err, LoadError::InvalidDocument));
    assert_eq!(err.message().as_str(), "Invalid YAML tree");
}

#[test]
fn empty_source_is_invalid_document() {
    let err = GameBoard::<Marker>::load_from_str("").map(|_| ()).unwrap_err();
    assert!(matches!(err, LoadError::InvalidDocument));
}

#[test]
fn top_level_must_be_mapping() {
    let err = build(&DocNode::Sequence(vec![]));
    assert!(matches!(err, LoadError::NotMapping));
    assert_eq!(err.message().as_str(), "Top YAML tree is not a hash.");
}

#[test]
fn territories_must_be_sequence() {
    let err = build(&DocNode::Mapping(vec![pair("territories", text("nope"))]));
    assert!(matches!(err, LoadError::TerritoriesNotSequence));
    let missing = build(&DocNode::Mapping(vec![]));
    assert!(matches!(missing, LoadError::TerritoriesNotSequence));
}

#[test]
fn territory_entry_must_be_mapping() {
    let doc = DocNode::Mapping(vec![pair("territories", DocNode::Sequence(vec![text("A")]))]);
    let err = build(&doc);
    assert!(matches!(err, LoadError::EntryNotMapping));
    assert_eq!(err.message().as_str(), "'territory' item is not a dictionary");
}

#[test]
fn territory_entry_needs_name() {
    let doc = DocNode::Mapping(vec![pair(
        "territories",
        DocNode::Sequence(vec![DocNode::Mapping(vec![pair(
            "canAttack",
            DocNode::Sequence(vec![]),
        )])]),
    )]);
    let err = build(&doc);
    assert!(matches!(err, LoadError::TerritoryMissingName));
    assert_eq!(err.message().as_str(), "Territory has no name.");
}

#[test]
fn can_attack_must_be_sequence() {
    let doc = DocNode::Mapping(vec![pair(
        "territories",
        DocNode::Sequence(vec![DocNode::Mapping(vec![pair("name", text("A"))])]),
    )]);
    let err = build(&doc);
    assert!(matches!(err, LoadError::CanAttackNotSequence));
    assert_eq!(err.message().as_str(), "canAttack must be a list");
}

#[test]
fn can_attack_entries_must_be_text() {
    let doc = DocNode::Mapping(vec![pair(
        "territories",
        DocNode::Sequence(vec![DocNode::Mapping(vec![
            pair("name", text("A")),
            pair("canAttack", DocNode::Sequence(vec![DocNode::Integer(7)])),
        ])]),
    )]);
    let err = build(&doc);
    assert!(matches!(err, LoadError::CanAttackEntryNotText));
    assert_eq!(err.message().as_str(), "Something in 'canAttack' is not a string");
}

#[test]
fn unknown_attack_reference() {
    let doc = DocNode::Mapping(vec![pair(
        "territories",
        DocNode::Sequence(vec![DocNode::Mapping(vec![
            pair("name", text("A")),
            pair("canAttack", DocNode::Sequence(vec![text("C")])),
        ])]),
    )]);
    let err = build(&doc);
    match &err {
        LoadError::UnknownName(n) => assert_eq!(n.as_str(), "C"),
        _ => panic!("expected a reference error"),
    }
    assert!(err.message().as_str().contains("C"));
}

#[test]
fn regions_must_be_sequence() {
    let doc = DocNode::Mapping(vec![pair("territories", DocNode::Sequence(vec![]))]);
    let err = build(&doc);
    assert!(matches!(err, LoadError::RegionsNotSequence));
    assert_eq!(err.message().as_str(), "'regions' does not contain a list");
}

#[test]
fn region_entry_needs_name() {
    let doc = DocNode::Mapping(vec![
        pair("territories", DocNode::Sequence(vec![])),
        pair(
            "regions",
            DocNode::Sequence(vec![DocNode::Mapping(vec![pair(
                "territories",
                DocNode::Sequence(vec![]),
            )])]),
        ),
    ]);
    let err = build(&doc);
    assert!(matches!(err, LoadError::RegionMissingName));
    assert_eq!(err.message().as_str(), "Region has no name.");
}

#[test]
fn region_members_must_be_sequence() {
    let doc = DocNode::Mapping(vec![
        pair("territories", DocNode::Sequence(vec![])),
        pair(
            "regions",
            DocNode::Sequence(vec![DocNode::Mapping(vec![pair("name", text("R"))])]),
        ),
    ]);
    let err = build(&doc);
    assert!(matches!(err, LoadError::MembersNotSequence));
    assert_eq!(err.message().as_str(), "territories must be a list");
}

#[test]
fn region_members_must_be_text() {
    let doc = DocNode::Mapping(vec![
        pair("territories", DocNode::Sequence(vec![])),
        pair(
            "regions",
            DocNode::Sequence(vec![DocNode::Mapping(vec![
                pair("name", text("R")),
                pair("territories", DocNode::Sequence(vec![DocNode::Integer(1)])),
            ])]),
        ),
    ]);
    let err = build(&doc);
    assert!(matches!(err, LoadError::MemberEntryNotText));
    assert_eq!(err.message().as_str(), "Something in 'territories' is not a string");
}

#[test]
fn region_unknown_member_reference() {
    let doc = DocNode::Mapping(vec![
        pair("territories", DocNode::Sequence(vec![])),
        pair(
            "regions",
            DocNode::Sequence(vec![DocNode::Mapping(vec![
                pair("name", text("R")),
                pair("territories", DocNode::Sequence(vec![text("Ghostland")])),
            ])]),
        ),
    ]);
    let err = build(&doc);
    match &err {
        LoadError::UnknownName(n) => assert_eq!(n.as_str(), "Ghostland"),
        _ => panic!("expected a reference error"),
    }
    assert_eq!(err.message().as_str(), "Not a short name: Ghostland");
}

#[test]
fn missing_name_via_yaml_source() {
    let src = "territories:\n  - canAttack: []\nregions: []\n";
    let err = GameBoard::<Marker>::load_from_str(src).map(|_| ()).unwrap_err();
    assert!(matches!(err, LoadError::TerritoryMissingName));
}
