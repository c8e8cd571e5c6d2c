use map_game_board_rs::BoardSpot;
use map_game_board_rs::DocNode;
use map_game_board_rs::GameBoard;
use map_game_board_rs::RegionBonusType;

#[derive(Clone, Default, PartialEq, Debug)]
struct IntThing {
    thing: i32,
}

impl BoardSpot for IntThing {
    fn svg(&self) -> String {
        return "<svg></svg>".to_string();
    }
}

fn text(s: &str) -> DocNode {
    DocNode::Text(s.to_string())
}

fn pair(k: &str, v: DocNode) -> (DocNode, DocNode) {
    (text(k), v)
}

/// A territory entry with the given short name and attack references.
fn territory_entry(name: &str, attacks: &[&str]) -> DocNode {
    DocNode::Mapping(vec![
        pair("name", text(name)),
        pair("canAttack", DocNode::Sequence(attacks.iter().map(|a| text(a)).collect())),
    ])
}

#[test]
fn default() {
    let ithing = IntThing {
        ..Default::default()
    };
    assert_eq!(ithing, IntThing { thing: 0 });
}

#[test]
fn two_territories_one_region() {
    let doc = DocNode::Mapping(vec![
        pair(
            "territories",
            DocNode::Sequence(vec![territory_entry("A", &["B"]), territory_entry("B", &["A"])]),
        ),
        pair(
            "regions",
            DocNode::Sequence(vec![DocNode::Mapping(vec![
                pair("name", text("R")),
                pair("bonusForAll", DocNode::Integer(3)),
                pair("territories", DocNode::Sequence(vec![text("A"), text("B")])),
            ])]),
        ),
    ]);
    let board: GameBoard<IntThing> = GameBoard::build_board(&doc).unwrap();
    let terrs = board.territories();
    assert_eq!(terrs.len(), 2);
    assert_eq!(terrs[0].get_short_name(), "A");
    assert_eq!(terrs[1].get_short_name(), "B");
    assert_eq!(terrs[0].get_connections(), &vec![1usize]);
    assert_eq!(terrs[1].get_connections(), &vec![0usize]);
    let regs = board.regions();
    assert_eq!(regs.len(), 1);
    assert_eq!(regs[0].get_short_name(), "R");
    assert_eq!(regs[0].get_members(), &vec![0usize, 1usize]);
    match regs[0].get_bonus_type() {
        RegionBonusType::BonusForAll(v) => assert_eq!(*v, 3),
        _ => panic!("expected a flat bonus"),
    }
}

#[test]
fn unknown_attack_name_is_reported_verbatim() {
    let doc = DocNode::Mapping(vec![
        pair("territories", DocNode::Sequence(vec![territory_entry("A", &["C"])])),
        pair("regions", DocNode::Sequence(vec![])),
    ]);
    let err = GameBoard::<IntThing>::build_board(&doc).map(|_| ()).unwrap_err();
    assert_eq!(err.message().as_str(), "Not a short name: C");
}

#[test]
fn display_name_defaults_to_short_name() {
    let doc = DocNode::Mapping(vec![
        pair("territories", DocNode::Sequence(vec![territory_entry("NA", &[])])),
        pair("regions", DocNode::Sequence(vec![])),
    ]);
    let board: GameBoard<IntThing> = GameBoard::build_board(&doc).unwrap();
    assert_eq!(board.territories()[0].get_name(), "NA");
    assert_eq!(board.territories()[0].get_short_name(), "NA");
}

#[test]
fn full_name_overrides_display_name() {
    let doc = DocNode::Mapping(vec![
        pair(
            "territories",
            DocNode::Sequence(vec![DocNode::Mapping(vec![
                pair("name", text("NA")),
                pair("fullName", text("North America")),
                pair("canAttack", DocNode::Sequence(vec![])),
            ])]),
        ),
        pair("regions", DocNode::Sequence(vec![])),
    ]);
    let board: GameBoard<IntThing> = GameBoard::build_board(&doc).unwrap();
    assert_eq!(board.territories()[0].get_name(), "North America");
    assert_eq!(board.territories()[0].get_short_name(), "NA");
}

#[test]
fn bonus_defaults_to_zero() {
    let doc = DocNode::Mapping(vec![
        pair("territories", DocNode::Sequence(vec![territory_entry("A", &[])])),
        pair(
            "regions",
            DocNode::Sequence(vec![DocNode::Mapping(vec![
                pair("name", text("R")),
                pair("territories", DocNode::Sequence(vec![text("A")])),
            ])]),
        ),
    ]);
    let board: GameBoard<IntThing> = GameBoard::build_board(&doc).unwrap();
    let regs = board.regions();
    match regs[0].get_bonus_type() {
        RegionBonusType::BonusForAll(v) => assert_eq!(*v, 0),
        _ => panic!("expected a flat bonus"),
    }
    assert_eq!(regs[0].get_name(), "R");
}

#[test]
fn duplicate_short_name_resolves_to_later_position() {
    let doc = DocNode::Mapping(vec![
        pair(
            "territories",
            DocNode::Sequence(vec![
                territory_entry("A", &[]),
                territory_entry("X", &["A"]),
                territory_entry("A", &[]),
            ]),
        ),
        pair("regions", DocNode::Sequence(vec![])),
    ]);
    let board: GameBoard<IntThing> = GameBoard::build_board(&doc).unwrap();
    // Both "A" territories exist by position; the reference resolves to the
    // later one.
    assert_eq!(board.territories().len(), 3);
    assert_eq!(board.territories()[1].get_connections(), &vec![2usize]);
}

#[test]
fn territory_count_matches_document_order() {
    let names = ["P", "Q", "R", "S"];
    let entries: Vec<DocNode> = names.iter().map(|n| territory_entry(n, &[])).collect();
    let doc = DocNode::Mapping(vec![
        pair("territories", DocNode::Sequence(entries)),
        pair("regions", DocNode::Sequence(vec![])),
    ]);
    let board: GameBoard<IntThing> = GameBoard::build_board(&doc).unwrap();
    assert_eq!(board.territories().len(), 4);
    for (i, n) in names.iter().enumerate() {
        assert_eq!(board.territories()[i].get_short_name(), n);
    }
}

#[test]
fn load_from_yaml_source() {
    let src = "territories:\n  - name: A\n    canAttack:\n      - B\n  - name: B\n    canAttack:\n      - A\nregions:\n  - name: R\n    bonusForAll: 3\n    territories:\n      - A\n      - B\n";
    let board: GameBoard<IntThing> = GameBoard::load_from_str(src).unwrap();
    let terrs = board.territories();
    assert_eq!(terrs.len(), 2);
    assert_eq!(terrs[0].get_short_name(), "A");
    assert_eq!(terrs[0].get_connections(), &vec![1usize]);
    assert_eq!(terrs[1].get_connections(), &vec![0usize]);
    let regs = board.regions();
    assert_eq!(regs.len(), 1);
    assert_eq!(regs[0].get_members(), &vec![0usize, 1usize]);
    match regs[0].get_bonus_type() {
        RegionBonusType::BonusForAll(v) => assert_eq!(*v, 3),
        _ => panic!("expected a flat bonus"),
    }
}

#[test]
fn load_from_yaml_full_names_and_defaults() {
    let src = "territories:\n  - name: NA\n    fullName: North America\n    canAttack: []\nregions:\n  - name: R\n    territories:\n      - NA\n";
    let board: GameBoard<IntThing> = GameBoard::load_from_str(src).unwrap();
    assert_eq!(board.territories()[0].get_name(), "North America");
    assert_eq!(board.regions()[0].get_name(), "R");
    match board.regions()[0].get_bonus_type() {
        RegionBonusType::BonusForAll(v) => assert_eq!(*v, 0),
        _ => panic!("expected a flat bonus"),
    }
}

#[test]
fn territory_builder_starts_empty() {
    let t: map_game_board_rs::MapTerritory<IntThing> =
        map_game_board_rs::MapTerritory::territory_builder(
            "North America".to_string(),
            "NA".to_string(),
        );
    assert_eq!(t.get_name(), "North America");
    assert_eq!(t.get_short_name(), "NA");
    assert!(t.get_connections().is_empty());
}
