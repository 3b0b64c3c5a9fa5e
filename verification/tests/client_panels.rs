use monopoly_core::board::{Board, ColorGroup, PropertyTile, RailroadTile, TaxTile, Tile, UtilityTile};
use monopoly_core::controls::{FrameInput, GameControls};
use monopoly_core::network::ClientMessage;
use monopoly_core::panels::{action_panel, card_detail, tooltip_lines, CardAction, DeedKind, Hint, PanelBody, Tone};
use monopoly_core::player::{Player, Token};
use monopoly_core::state::{GameState, TurnPhase};

fn street(owner: Option<u8>, houses: u8, mortgaged: bool) -> Tile {
    Tile::Property(PropertyTile {
        name: "Baltic Avenue".to_string(),
        color_group: ColorGroup::Brown,
        price: 60,
        building_cost: 50,
        rent: [4, 20, 60, 180, 320, 450],
        owner,
        houses,
        mortgaged,
    })
}

fn game() -> GameState {
    let players = (0..2).map(|i| Player::new(i, format!("P{}", i), Token::Car, 1500)).collect();
    let mut tiles: Vec<Tile> = (0..40).map(|_| Tile::FreeParking).collect();
    tiles[0] = Tile::Go;
    tiles[3] = street(Some(0), 5, false);
    tiles[4] = Tile::Tax(TaxTile { name: "Income Tax".to_string(), amount: 200 });
    tiles[5] = Tile::Railroad(RailroadTile { name: "Reading Railroad".to_string(), price: 200, owner: Some(0), mortgaged: true });
    tiles[12] = Tile::Utility(UtilityTile { name: "Electric Company".to_string(), price: 150, owner: None, mortgaged: false });
    tiles[13] = street(Some(7), 2, false);
    tiles[14] = street(Some(0), 0, true);
    GameState {
        board: Board { tiles },
        players,
        current_player_index: 0,
        turn_phase: TurnPhase::WaitingForRoll,
        turn_number: 0,
        last_roll: None,
        free_parking_pot: 0,
        game_over: false,
        winner: None,
        houses_remaining: 32,
        hotels_remaining: 12,
        auction_passers: Vec::new(),
    }
}

// ---------------------------------------------------------------- cards

#[test]
fn own_street_card_offers_mortgage_and_build_on_ones_turn() {
    let g = game();
    let d = card_detail(&g, 3, 0).unwrap();
    assert_eq!(d.kind, DeedKind::TitleDeed(ColorGroup::Brown));
    assert_eq!(d.name, "Baltic Avenue");
    assert_eq!(d.price, 60);
    assert_eq!(d.building_cost, 50);
    assert_eq!(d.rents, vec![4, 20, 60, 180, 320, 450]);
    assert_eq!(d.current_row, Some(5));
    assert!(!d.mortgaged);
    assert_eq!(d.mortgage_value, 30);
    assert_eq!(d.unmortgage_cost, None);
    assert_eq!(d.actions, vec![CardAction::Mortgage, CardAction::Build]);
    // Not the owner: no actions.
    assert!(card_detail(&g, 3, 1).unwrap().actions.is_empty());
}

#[test]
fn cards_off_turn_offer_nothing() {
    let mut g = game();
    g.current_player_index = 1;
    assert!(card_detail(&g, 3, 0).unwrap().actions.is_empty());
}

#[test]
fn mortgaged_cards_show_the_unmortgage_cost_and_offer_to_lift_it() {
    let g = game();
    let d = card_detail(&g, 14, 0).unwrap();
    assert!(d.mortgaged);
    assert_eq!(d.current_row, Some(0));
    // Half the price plus a tenth: 30 + 6.
    assert_eq!(d.unmortgage_cost, Some(36));
    assert_eq!(d.actions, vec![CardAction::Unmortgage]);
    let r = card_detail(&g, 5, 0).unwrap();
    assert_eq!(r.kind, DeedKind::Railroad);
    assert_eq!(r.rents, vec![25, 50, 100, 200]);
    assert_eq!(r.current_row, None);
    assert_eq!(r.mortgage_value, 100);
    assert_eq!(r.actions, vec![CardAction::Unmortgage]);
}

#[test]
fn utility_card_shows_the_dice_multipliers() {
    let g = game();
    let u = card_detail(&g, 12, 0).unwrap();
    assert_eq!(u.kind, DeedKind::Utility);
    assert_eq!(u.rents, vec![4, 10]);
    assert_eq!(u.mortgage_value, 75);
    assert!(u.actions.is_empty());
    assert!(card_detail(&g, 0, 0).is_none());
    assert!(card_detail(&g, 4, 0).is_none());
}

// ---------------------------------------------------------------- the action panel

fn hints(p: &PanelBody) -> Vec<Hint> {
    match p {
        PanelBody::Actions { hints, .. } => hints.clone(),
        _ => panic!("no hints"),
    }
}

#[test]
fn the_panel_names_the_keys_of_each_phase() {
    let mut g = game();
    let p = action_panel(&g, 0, &vec![]);
    assert!(p.my_turn);
    assert_eq!(p.current_name, "P0");
    assert_eq!(hints(&p.body), vec![Hint::Roll]);
    g.last_roll = Some((2, 4));
    g.turn_phase = TurnPhase::BuyDecision { tile_index: 12 };
    let p = action_panel(&g, 0, &vec![]);
    assert_eq!(p.rolled, Some((2, 4, 6)));
    assert_eq!(hints(&p.body), vec![Hint::Buy { price: 150 }, Hint::Decline]);
    g.turn_phase = TurnPhase::PostRoll;
    assert_eq!(hints(&action_panel(&g, 0, &vec![]).body), vec![Hint::EndTurn, Hint::ProposeTrade]);
    g.turn_phase = TurnPhase::JailDecision;
    assert_eq!(hints(&action_panel(&g, 0, &vec![]).body), vec![Hint::PayFine, Hint::RollForDoubles]);
    g.turn_phase = TurnPhase::PayingRent { amount: 18, to_player: 1 };
    match action_panel(&g, 0, &vec![]).body {
        PanelBody::Actions { rent_due, hints } => {
            assert_eq!(rent_due, Some(18));
            assert_eq!(hints, vec![Hint::ConfirmRent]);
        }
        _ => panic!("no hints"),
    }
    g.turn_phase = TurnPhase::EndTurn;
    assert!(matches!(action_panel(&g, 0, &vec![]).body, PanelBody::EndingTurn));
    // Another player sees a waiting panel.
    g.turn_phase = TurnPhase::PostRoll;
    let other = action_panel(&g, 1, &vec![]);
    assert!(!other.my_turn);
    assert!(matches!(other.body, PanelBody::Waiting));
}

#[test]
fn everyone_sees_the_auction() {
    let mut g = game();
    g.turn_phase = TurnPhase::Auction { tile_index: 12, highest_bid: 40, highest_bidder: 1 };
    for id in 0..2 {
        match action_panel(&g, id, &vec!['5', '0']).body {
            PanelBody::Auction { top_bid, leader, bid } => {
                assert_eq!(top_bid, 40);
                assert_eq!(leader, 1);
                assert_eq!(bid, vec!['5', '0']);
            }
            _ => panic!("no auction"),
        }
    }
}

#[test]
fn hint_keys_send_what_the_hints_say() {
    let mut g = game();
    let expected = [
        (TurnPhase::WaitingForRoll, FrameInput { space: true, ..FrameInput::default() }, "RollDice"),
        (TurnPhase::PostRoll, FrameInput { key_e: true, ..FrameInput::default() }, "EndTurn"),
        (TurnPhase::JailDecision, FrameInput { key_r: true, ..FrameInput::default() }, "RollForJail"),
    ];
    for (phase, input, name) in expected {
        g.turn_phase = phase;
        let mut c = GameControls::new();
        let sent: Vec<ClientMessage> = c.respond(&g, 0, &input);
        assert_eq!(sent.iter().map(|m| format!("{:?}", m)).collect::<Vec<_>>(), vec![name.to_string()]);
    }
}

// ---------------------------------------------------------------- tooltips

fn texts(lines: &[(String, Tone)]) -> Vec<&str> {
    lines.iter().map(|(t, _)| t.as_str()).collect()
}

#[test]
fn street_tooltip_lists_rents_buildings_and_owner() {
    let g = game();
    let lines = tooltip_lines(&g, 3);
    assert_eq!(
        texts(&lines),
        vec![
            "Baltic Avenue",
            "Price: $60",
            "Build: $50 each",
            "─────────────",
            "Rent:       $4",
            "1 house:    $20",
            "2 houses:   $60",
            "3 houses:   $180",
            "4 houses:   $320",
            "Hotel:      $450",
            "─────────────",
            "Hotel",
            "Owner: P0",
        ]
    );
    assert_eq!(lines[0].1, Tone::Group(ColorGroup::Brown));
    assert_eq!(lines[11].1, Tone::Hotel);
    assert_eq!(lines[12].1, Tone::Owner(0));
    let other = tooltip_lines(&g, 13);
    assert_eq!(other[11], ("Houses: 2".to_string(), Tone::Houses));
    assert_eq!(other[12], ("Owner: Unknown".to_string(), Tone::Owner(7)));
    let mortgaged = tooltip_lines(&g, 14);
    assert_eq!(mortgaged.len(), 12);
    assert_eq!(mortgaged[11], ("MORTGAGED".to_string(), Tone::Debt));
}

#[test]
fn other_tooltips() {
    let g = game();
    assert_eq!(texts(&tooltip_lines(&g, 4)), vec!["Income Tax", "Pay: $200"]);
    assert_eq!(tooltip_lines(&g, 4)[0].1, Tone::Debt);
    let u = tooltip_lines(&g, 12);
    assert_eq!(u.last().unwrap(), &("Unowned".to_string(), Tone::Subtext));
    assert_eq!(texts(&tooltip_lines(&g, 0)), vec!["GO", "Collect $200 salary", "when passing or landing"]);
    assert_eq!(texts(&tooltip_lines(&g, 20)), vec!["FREE PARKING", "No effect in standard rules"]);
    let r = tooltip_lines(&g, 5);
    assert_eq!(r[1].0, "Price: $200");
    assert_eq!(r[8], ("MORTGAGED".to_string(), Tone::Debt));
}
