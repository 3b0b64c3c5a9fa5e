use monopoly_core::board::{ColorGroup, Tile};
use monopoly_core::cards::{build_card_decks, parse_card, shuffle, Card, CardDecks, CardEffect, RawCard, RawDecks};
use monopoly_core::loader::{build_board, parse_color, parse_tile, LoadError, RawTile, TileField, TileKind};

fn raw(ty: &str) -> RawTile {
    RawTile {
        tile_type: ty.to_string(),
        name: None,
        color_group: None,
        price: None,
        building_cost: None,
        rent: None,
        amount: None,
    }
}

fn raw_property(name: &str, color: &str) -> RawTile {
    RawTile {
        tile_type: "Property".to_string(),
        name: Some(name.to_string()),
        color_group: Some(color.to_string()),
        price: Some(60),
        building_cost: Some(50),
        rent: Some([2, 10, 30, 90, 160, 250]),
        amount: None,
    }
}

fn raw_card(effect: &str, value: Option<u32>, hotel: Option<u32>) -> RawCard {
    RawCard { description: format!("card {}", effect), effect: effect.to_string(), value, hotel_value: hotel }
}

fn card(n: u32) -> Card {
    Card { description: format!("c{}", n), effect: CardEffect::Collect { amount: n } }
}

fn forty_tiles() -> Vec<RawTile> {
    let mut v = vec![raw("Go")];
    for i in 1..40 {
        v.push(if i % 2 == 0 { raw("FreeParking") } else { raw_property(&format!("P{}", i), "Red") });
    }
    v
}

// ---------------------------------------------------------------- colors and tiles

#[test]
fn every_color_name_is_read() {
    let names = [
        ("Brown", ColorGroup::Brown),
        ("LightBlue", ColorGroup::LightBlue),
        ("Pink", ColorGroup::Pink),
        ("Orange", ColorGroup::Orange),
        ("Red", ColorGroup::Red),
        ("Yellow", ColorGroup::Yellow),
        ("Green", ColorGroup::Green),
        ("DarkBlue", ColorGroup::DarkBlue),
    ];
    for (s, c) in names {
        assert_eq!(parse_color(&s.to_string(), 0).unwrap(), c);
    }
}

#[test]
fn unknown_color_is_refused_with_its_index() {
    match parse_color(&"Purple".to_string(), 7) {
        Err(LoadError::UnknownColorGroup { index, color }) => {
            assert_eq!(index, 7);
            assert_eq!(color, "Purple");
        }
        other => panic!("unexpected {:?}", other),
    }
    assert!(parse_color(&"brown".to_string(), 0).is_err());
}

#[test]
fn simple_tiles_are_read() {
    assert!(matches!(parse_tile(raw("Go"), 0), Ok(Tile::Go)));
    assert!(matches!(parse_tile(raw("Jail"), 10), Ok(Tile::Jail)));
    assert!(matches!(parse_tile(raw("FreeParking"), 20), Ok(Tile::FreeParking)));
    assert!(matches!(parse_tile(raw("GoToJail"), 30), Ok(Tile::GoToJail)));
    assert!(matches!(parse_tile(raw("CommunityChest"), 2), Ok(Tile::CommunityChest)));
    assert!(matches!(parse_tile(raw("Chance"), 7), Ok(Tile::Chance)));
}

#[test]
fn property_tile_is_read_unowned() {
    match parse_tile(raw_property("Baltic Avenue", "Brown"), 3) {
        Ok(Tile::Property(p)) => {
            assert_eq!(p.name, "Baltic Avenue");
            assert_eq!(p.color_group, ColorGroup::Brown);
            assert_eq!(p.price, 60);
            assert_eq!(p.building_cost, 50);
            assert_eq!(p.rent, [2, 10, 30, 90, 160, 250]);
            assert_eq!(p.owner, None);
            assert_eq!(p.houses, 0);
            assert!(!p.mortgaged);
        }
        other => panic!("unexpected {:?}", other),
    }
}

#[test]
fn tax_railroad_and_utility_tiles_are_read() {
    let mut t = raw("Tax");
    t.name = Some("Income Tax".to_string());
    t.amount = Some(200);
    match parse_tile(t, 4) {
        Ok(Tile::Tax(x)) => {
            assert_eq!(x.name, "Income Tax");
            assert_eq!(x.amount, 200);
        }
        other => panic!("unexpected {:?}", other),
    }
    let mut r = raw("Railroad");
    r.name = Some("Reading Railroad".to_string());
    r.price = Some(200);
    match parse_tile(r, 5) {
        Ok(Tile::Railroad(x)) => {
            assert_eq!(x.name, "Reading Railroad");
            assert_eq!(x.price, 200);
            assert_eq!(x.owner, None);
            assert!(!x.mortgaged);
        }
        other => panic!("unexpected {:?}", other),
    }
    let mut u = raw("Utility");
    u.name = Some("Water Works".to_string());
    u.price = Some(150);
    match parse_tile(u, 28) {
        Ok(Tile::Utility(x)) => {
            assert_eq!(x.name, "Water Works");
            assert_eq!(x.price, 150);
            assert_eq!(x.owner, None);
        }
        other => panic!("unexpected {:?}", other),
    }
}

fn missing_field(r: Result<Tile, LoadError>) -> (usize, TileKind, TileField) {
    match r {
        Err(LoadError::MissingField { index, kind, field }) => (index, kind, field),
        other => panic!("unexpected {:?}", other),
    }
}

#[test]
fn missing_fields_are_reported_in_reading_order() {
    assert_eq!(missing_field(parse_tile(raw("Tax"), 4)), (4, TileKind::Tax, TileField::Name));
    let mut t = raw("Tax");
    t.name = Some("Tax".to_string());
    assert_eq!(missing_field(parse_tile(t, 4)), (4, TileKind::Tax, TileField::Amount));
    assert_eq!(missing_field(parse_tile(raw("Railroad"), 5)), (5, TileKind::Railroad, TileField::Name));
    let mut r = raw("Railroad");
    r.name = Some("R".to_string());
    assert_eq!(missing_field(parse_tile(r, 5)), (5, TileKind::Railroad, TileField::Price));
    let mut u = raw("Utility");
    u.name = Some("U".to_string());
    assert_eq!(missing_field(parse_tile(u, 12)), (12, TileKind::Utility, TileField::Price));
    assert_eq!(missing_field(parse_tile(raw("Property"), 1)), (1, TileKind::Property, TileField::Name));
    let mut p = raw_property("A", "Red");
    p.color_group = None;
    assert_eq!(missing_field(parse_tile(p, 1)), (1, TileKind::Property, TileField::ColorGroup));
    let mut p = raw_property("A", "Red");
    p.price = None;
    assert_eq!(missing_field(parse_tile(p, 1)), (1, TileKind::Property, TileField::Price));
    let mut p = raw_property("A", "Red");
    p.building_cost = None;
    assert_eq!(missing_field(parse_tile(p, 1)), (1, TileKind::Property, TileField::BuildingCost));
    let mut p = raw_property("A", "Red");
    p.rent = None;
    assert_eq!(missing_field(parse_tile(p, 1)), (1, TileKind::Property, TileField::Rent));
}

#[test]
fn unknown_color_beats_missing_price() {
    let mut p = raw_property("A", "Mauve");
    p.price = None;
    match parse_tile(p, 9) {
        Err(LoadError::UnknownColorGroup { index, color }) => {
            assert_eq!(index, 9);
            assert_eq!(color, "Mauve");
        }
        other => panic!("unexpected {:?}", other),
    }
}

#[test]
fn unknown_tile_type_is_refused() {
    match parse_tile(raw("Casino"), 13) {
        Err(LoadError::UnknownTileType { index, tile_type }) => {
            assert_eq!(index, 13);
            assert_eq!(tile_type, "Casino");
        }
        other => panic!("unexpected {:?}", other),
    }
}

// ---------------------------------------------------------------- boards

#[test]
fn forty_good_tiles_make_a_board() {
    let board = build_board(forty_tiles()).unwrap();
    assert_eq!(board.tile_count(), 40);
    assert!(matches!(board.tiles[0], Tile::Go));
    match &board.tiles[39] {
        Tile::Property(p) => assert_eq!(p.name, "P39"),
        other => panic!("unexpected {:?}", other),
    }
}

#[test]
fn a_board_needs_exactly_forty_tiles() {
    let mut tiles = forty_tiles();
    tiles.pop();
    assert!(matches!(build_board(tiles), Err(LoadError::WrongTileCount { found: 39 })));
    let mut tiles = forty_tiles();
    tiles.push(raw("Chance"));
    assert!(matches!(build_board(tiles), Err(LoadError::WrongTileCount { found: 41 })));
    assert!(matches!(build_board(Vec::new()), Err(LoadError::WrongTileCount { found: 0 })));
}

#[test]
fn the_first_bad_tile_is_reported() {
    let mut tiles = forty_tiles();
    tiles[5] = raw("Casino");
    tiles[9] = raw("Railroad");
    match build_board(tiles) {
        Err(LoadError::UnknownTileType { index, tile_type }) => {
            assert_eq!(index, 5);
            assert_eq!(tile_type, "Casino");
        }
        other => panic!("unexpected {:?}", other),
    }
    // A bad tile is reported even when the count is wrong too.
    let mut short = forty_tiles();
    short.truncate(10);
    short[3] = raw("Railroad");
    assert_eq!(missing_field(build_board(short).map(|b| b.tiles[0].clone())), (3, TileKind::Railroad, TileField::Name));
}

// ---------------------------------------------------------------- cards

#[test]
fn every_card_effect_is_read() {
    let cases = [
        (raw_card("collect", Some(200), None), CardEffect::Collect { amount: 200 }),
        (raw_card("pay", Some(15), None), CardEffect::Pay { amount: 15 }),
        (raw_card("move_to", Some(39), None), CardEffect::MoveTo { tile_index: 39 }),
        (raw_card("move_back", Some(3), None), CardEffect::MoveBack { spaces: 3 }),
        (raw_card("go_to_jail", None, None), CardEffect::GoToJail),
        (raw_card("get_out_of_jail", None, None), CardEffect::GetOutOfJail),
        (raw_card("collect_from_players", Some(50), None), CardEffect::CollectFromPlayers { amount: 50 }),
        (raw_card("pay_per_player", Some(50), None), CardEffect::PayPerPlayer { amount: 50 }),
        (raw_card("pay_per_house", Some(40), Some(115)), CardEffect::PayPerHouse { per_house: 40, per_hotel: 115 }),
        (raw_card("move_to_nearest_utility", None, None), CardEffect::MoveToNearestUtility),
        (raw_card("move_to_nearest_railroad", None, None), CardEffect::MoveToNearestRailroad),
    ];
    for (r, e) in cases {
        let d = r.description.clone();
        let c = parse_card(r).unwrap();
        assert_eq!(c.effect, e);
        assert_eq!(c.description, d);
    }
}

#[test]
fn missing_card_values_read_as_zero() {
    assert_eq!(parse_card(raw_card("collect", None, None)).unwrap().effect, CardEffect::Collect { amount: 0 });
    assert_eq!(
        parse_card(raw_card("pay_per_house", Some(25), None)).unwrap().effect,
        CardEffect::PayPerHouse { per_house: 25, per_hotel: 0 }
    );
}

#[test]
fn unknown_card_effect_is_refused() {
    match parse_card(raw_card("teleport", Some(1), None)) {
        Err(LoadError::UnknownCardEffect { effect }) => assert_eq!(effect, "teleport"),
        other => panic!("unexpected {:?}", other),
    }
}

fn amounts(cards: &[Card]) -> Vec<u32> {
    cards
        .iter()
        .map(|c| match c.effect {
            CardEffect::Collect { amount } => amount,
            _ => panic!("not a collect card"),
        })
        .collect()
}

#[test]
fn shuffle_follows_the_seed() {
    let deck: Vec<Card> = (0..3).map(card).collect();
    assert_eq!(amounts(&shuffle(deck, 0)), vec![2, 0, 1]);
    let deck: Vec<Card> = (0..5).map(card).collect();
    assert_eq!(amounts(&shuffle(deck, 42)), vec![1, 4, 2, 0, 3]);
    let deck: Vec<Card> = (0..4).map(card).collect();
    assert_eq!(amounts(&shuffle(deck, 7)), vec![1, 3, 0, 2]);
}

#[test]
fn shuffle_is_a_permutation_and_deterministic() {
    for seed in [0u64, 1, 99, u64::MAX] {
        let a = shuffle((0..16).map(card).collect(), seed);
        let b = shuffle((0..16).map(card).collect(), seed);
        assert_eq!(amounts(&a), amounts(&b));
        let mut sorted = amounts(&a);
        sorted.sort();
        assert_eq!(sorted, (0..16).collect::<Vec<u32>>());
    }
    assert!(shuffle(Vec::new(), 5).is_empty());
    assert_eq!(amounts(&shuffle(vec![card(9)], 5)), vec![9]);
}

#[test]
fn decks_are_read_and_shuffled() {
    let raw = RawDecks {
        community_chest: vec![
            raw_card("collect", Some(0), None),
            raw_card("collect", Some(1), None),
            raw_card("collect", Some(2), None),
        ],
        chance: vec![raw_card("go_to_jail", None, None)],
    };
    let d = build_card_decks(raw, 0, 11).unwrap();
    assert_eq!(amounts(&d.community_chest), vec![2, 0, 1]);
    assert_eq!(d.chance.len(), 1);
    assert_eq!(d.chance[0].effect, CardEffect::GoToJail);
    assert_eq!(d.community_chest_index, 0);
    assert_eq!(d.chance_index, 0);
}

#[test]
fn a_bad_card_refuses_the_decks() {
    let raw = RawDecks {
        community_chest: vec![raw_card("collect", Some(1), None), raw_card("warp", None, None)],
        chance: vec![raw_card("fly", None, None)],
    };
    match build_card_decks(raw, 1, 2) {
        Err(LoadError::UnknownCardEffect { effect }) => assert_eq!(effect, "warp"),
        other => panic!("unexpected {:?}", other),
    }
    let raw = RawDecks { community_chest: vec![], chance: vec![raw_card("fly", None, None)] };
    match build_card_decks(raw, 1, 2) {
        Err(LoadError::UnknownCardEffect { effect }) => assert_eq!(effect, "fly"),
        other => panic!("unexpected {:?}", other),
    }
}

#[test]
fn draws_go_round_each_deck() {
    let mut d = CardDecks {
        community_chest: (0..3).map(card).collect(),
        chance: (10..12).map(card).collect(),
        community_chest_index: 0,
        chance_index: 1,
    };
    let cc: Vec<u32> = (0..7).map(|_| amounts(&[d.draw_community_chest()])[0]).collect();
    assert_eq!(cc, vec![0, 1, 2, 0, 1, 2, 0]);
    assert_eq!(d.community_chest_index, 1);
    let ch: Vec<u32> = (0..3).map(|_| amounts(&[d.draw_chance()])[0]).collect();
    assert_eq!(ch, vec![11, 10, 11]);
    assert_eq!(d.chance_index, 0);
    assert_eq!(d.community_chest_index, 1);
}

#[test]
fn load_errors_read_as_messages() {
    let cases = [
        (LoadError::UnknownTileType { index: 13, tile_type: "Casino".to_string() }, "Tile 13: Unknown tile type 'Casino'"),
        (LoadError::MissingField { index: 4, kind: TileKind::Tax, field: TileField::Amount }, "Tile 4: Tax missing amount"),
        (
            LoadError::MissingField { index: 1, kind: TileKind::Property, field: TileField::ColorGroup },
            "Tile 1: Property missing color_group",
        ),
        (
            LoadError::MissingField { index: 39, kind: TileKind::Property, field: TileField::BuildingCost },
            "Tile 39: Property missing building_cost",
        ),
        (LoadError::MissingField { index: 5, kind: TileKind::Railroad, field: TileField::Price }, "Tile 5: Railroad missing price"),
        (LoadError::MissingField { index: 12, kind: TileKind::Utility, field: TileField::Name }, "Tile 12: Utility missing name"),
        (LoadError::MissingField { index: 0, kind: TileKind::Property, field: TileField::Rent }, "Tile 0: Property missing rent"),
        (LoadError::UnknownColorGroup { index: 9, color: "Mauve".to_string() }, "Tile 9: Unknown color group 'Mauve'"),
        (LoadError::WrongTileCount { found: 39 }, "Board must have exactly 40 tiles, found 39"),
        (LoadError::UnknownCardEffect { effect: "warp".to_string() }, "Unknown card effect: warp"),
    ];
    for (e, text) in cases {
        assert_eq!(e.message(), text);
    }
}

#[test]
fn a_deck_of_n_cards_gives_each_card_once_in_n_draws() {
    let mut d = CardDecks {
        community_chest: (0..5).map(card).collect(),
        chance: (10..12).map(card).collect(),
        community_chest_index: 3,
        chance_index: 0,
    };
    let mut drawn: Vec<u32> = (0..5).map(|_| amounts(&[d.draw_community_chest()])[0]).collect();
    assert_eq!(drawn, vec![3, 4, 0, 1, 2]);
    drawn.sort();
    assert_eq!(drawn, vec![0, 1, 2, 3, 4]);
    assert_eq!(d.community_chest_index, 3);
}
