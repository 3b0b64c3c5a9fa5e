use monopoly_core::board::{Board, ColorGroup, PropertyTile, RailroadTile, Tile};
use monopoly_core::controls::{group_properties, parse_amount, CardGroup, FrameInput, GameControls, TradeInput, TradeScreenState};
use monopoly_core::network::ClientMessage;
use monopoly_core::player::{Player, Token};
use monopoly_core::state::{GameState, TurnPhase};

fn game(n: u8) -> GameState {
    let players = (0..n).map(|i| Player::new(i, format!("P{}", i), Token::Car, 1500)).collect();
    GameState {
        board: Board { tiles: (0..40).map(|_| Tile::FreeParking).collect() },
        players,
        current_player_index: 0,
        turn_phase: TurnPhase::WaitingForRoll,
        turn_number: 0,
        last_roll: None,
        free_parking_pot: 0,
        game_over: false,
        winner: None,
        houses_remaining: 32,
        hotels_remaining: 12,
        auction_passers: Vec::new(),
    }
}

fn no_input() -> FrameInput {
    FrameInput::default()
}

fn typed(c: char) -> FrameInput {
    FrameInput { typed: Some(c), ..FrameInput::default() }
}

fn chars(s: &str) -> Vec<char> {
    s.chars().collect()
}

fn names(ms: &[ClientMessage]) -> Vec<String> {
    ms.iter().map(|m| format!("{:?}", m)).collect()
}

#[test]
fn new_controls_are_closed_and_empty() {
    let c = GameControls::new();
    assert!(c.bid_input.is_empty());
    assert!(c.event_log.is_empty());
    assert!(!c.card_panel_open);
    assert_eq!(c.selected_card, None);
    assert!(c.trade_screen.is_none());
}

#[test]
fn event_log_keeps_the_last_six_lines() {
    let mut c = GameControls::new();
    for i in 0..9 {
        c.push_event(format!("e{}", i));
    }
    assert_eq!(c.event_log, vec!["e3", "e4", "e5", "e6", "e7", "e8"]);
}

#[test]
fn amounts_read_from_digits() {
    assert_eq!(parse_amount(&chars("123")), Some(123));
    assert_eq!(parse_amount(&chars("007")), Some(7));
    assert_eq!(parse_amount(&chars("4294967295")), Some(u32::MAX));
    assert_eq!(parse_amount(&chars("4294967296")), None);
    assert_eq!(parse_amount(&chars("99999999999999999999")), None);
    assert_eq!(parse_amount(&chars("")), None);
    assert_eq!(parse_amount(&chars("12a")), None);
    assert_eq!(parse_amount(&chars("-1")), None);
}

#[test]
fn c_toggles_the_card_panel() {
    let g = game(2);
    let mut c = GameControls::new();
    let sent = c.respond(&g, 0, &FrameInput { toggle_cards: true, ..no_input() });
    assert!(sent.is_empty());
    assert!(c.card_panel_open);
    c.respond(&g, 0, &FrameInput { toggle_cards: true, ..no_input() });
    assert!(!c.card_panel_open);
}

#[test]
fn auction_bids_are_typed_and_sent() {
    let mut g = game(2);
    g.turn_phase = TurnPhase::Auction { tile_index: 3, highest_bid: 0, highest_bidder: 0 };
    let mut c = GameControls::new();
    for ch in ['1', 'x', '2', '5'] {
        assert!(c.respond(&g, 1, &typed(ch)).is_empty());
    }
    assert_eq!(c.bid_input, chars("125"));
    c.respond(&g, 1, &FrameInput { backspace: true, ..no_input() });
    assert_eq!(c.bid_input, chars("12"));
    let sent = c.respond(&g, 1, &FrameInput { enter: true, ..no_input() });
    assert_eq!(names(&sent), vec!["PlaceBid { amount: 12 }"]);
    assert!(c.bid_input.is_empty());
    // Enter with nothing typed sends nothing.
    assert!(c.respond(&g, 1, &FrameInput { enter: true, ..no_input() }).is_empty());
    c.respond(&g, 1, &typed('9'));
    let sent = c.respond(&g, 1, &FrameInput { key_p: true, ..no_input() });
    assert_eq!(names(&sent), vec!["PassBid"]);
    assert!(c.bid_input.is_empty());
    // During an auction the other keys do nothing.
    assert!(c.respond(&g, 0, &FrameInput { space: true, key_y: true, ..no_input() }).is_empty());
}

#[test]
fn t_opens_a_trade_with_the_first_other_player_in_the_game() {
    let mut g = game(4);
    g.turn_phase = TurnPhase::PostRoll;
    g.players[1].bankrupt = true;
    let mut c = GameControls::new();
    c.card_panel_open = true;
    c.selected_card = Some(3);
    c.respond(&g, 0, &FrameInput { key_t: true, ..no_input() });
    let t = c.trade_screen.as_ref().unwrap();
    assert_eq!(t.target_player, 2);
    assert_eq!(t.offered_money_input, chars("0"));
    assert_eq!(t.requested_money_input, chars("0"));
    assert_eq!(t.active_input, TradeInput::OfferedMoney);
    assert!(!c.card_panel_open);
    assert_eq!(c.selected_card, None);
    // Not on another player's turn.
    let mut d = GameControls::new();
    d.respond(&g, 2, &FrameInput { key_t: true, ..no_input() });
    assert!(d.trade_screen.is_none());
}

#[test]
fn trade_partner_cycles_and_request_is_dropped() {
    let g = game(4);
    let mut c = GameControls::new();
    let mut t = TradeScreenState::new(1);
    t.requested_properties = vec![5];
    c.trade_screen = Some(t);
    c.respond(&g, 0, &FrameInput { right: true, ..no_input() });
    assert_eq!(c.trade_screen.as_ref().unwrap().target_player, 2);
    assert!(c.trade_screen.as_ref().unwrap().requested_properties.is_empty());
    c.respond(&g, 0, &FrameInput { right: true, ..no_input() });
    c.respond(&g, 0, &FrameInput { right: true, ..no_input() });
    assert_eq!(c.trade_screen.as_ref().unwrap().target_player, 1);
    c.respond(&g, 0, &FrameInput { left: true, ..no_input() });
    assert_eq!(c.trade_screen.as_ref().unwrap().target_player, 3);
}

#[test]
fn trade_sums_are_typed_field_by_field() {
    let g = game(2);
    let mut c = GameControls::new();
    c.trade_screen = Some(TradeScreenState::new(1));
    c.respond(&g, 0, &typed('5'));
    c.respond(&g, 0, &typed('0'));
    c.respond(&g, 0, &FrameInput { tab: true, ..no_input() });
    c.respond(&g, 0, &typed('7'));
    {
        let t = c.trade_screen.as_ref().unwrap();
        assert_eq!(t.offered_money_input, chars("50"));
        assert_eq!(t.requested_money_input, chars("7"));
        assert_eq!(t.active_input, TradeInput::RequestedMoney);
    }
    c.respond(&g, 0, &FrameInput { backspace: true, ..no_input() });
    assert_eq!(c.trade_screen.as_ref().unwrap().requested_money_input, chars("0"));
}

#[test]
fn clicks_pick_cards_and_enter_proposes() {
    let mut g = game(2);
    g.players[0].properties = vec![1, 3];
    g.players[1].properties = vec![5];
    let mut c = GameControls::new();
    c.trade_screen = Some(TradeScreenState::new(1));
    c.respond(&g, 0, &FrameInput { offer_slot: Some(1), ..no_input() });
    c.respond(&g, 0, &FrameInput { request_slot: Some(0), ..no_input() });
    c.respond(&g, 0, &FrameInput { offer_slot: Some(7), ..no_input() });
    {
        let t = c.trade_screen.as_ref().unwrap();
        assert_eq!(t.offered_properties, vec![3]);
        assert_eq!(t.requested_properties, vec![5]);
    }
    c.respond(&g, 0, &FrameInput { offer_slot: Some(0), ..no_input() });
    c.respond(&g, 0, &FrameInput { offer_slot: Some(1), ..no_input() });
    assert_eq!(c.trade_screen.as_ref().unwrap().offered_properties, vec![1]);
    c.respond(&g, 0, &typed('2'));
    let sent = c.respond(&g, 0, &FrameInput { enter: true, ..no_input() });
    assert_eq!(
        names(&sent),
        vec!["ProposeTrade { to_player: 1, offered_properties: [1], offered_money: 2, requested_properties: [5], requested_money: 0 }"]
    );
    assert!(c.trade_screen.is_none());
}

#[test]
fn escape_closes_the_trade_screen() {
    let g = game(2);
    let mut c = GameControls::new();
    c.trade_screen = Some(TradeScreenState::new(1));
    assert!(c.respond(&g, 0, &FrameInput { escape: true, key_y: true, ..no_input() }).is_empty());
    assert!(c.trade_screen.is_none());
}

#[test]
fn card_view_actions() {
    let g = game(2);
    let mut c = GameControls::new();
    c.card_panel_open = true;
    c.respond(&g, 0, &FrameInput { panel_card: Some(6), ..no_input() });
    assert_eq!(c.selected_card, Some(6));
    let sent = c.respond(&g, 0, &FrameInput { key_b: true, ..no_input() });
    assert_eq!(names(&sent), vec!["BuildHouse { tile_index: 6 }"]);
    assert_eq!(c.selected_card, Some(6));
    let sent = c.respond(&g, 0, &FrameInput { key_m: true, ..no_input() });
    assert_eq!(names(&sent), vec!["Mortgage { tile_index: 6 }"]);
    assert_eq!(c.selected_card, None);
    c.respond(&g, 0, &FrameInput { panel_card: Some(6), ..no_input() });
    let sent = c.respond(&g, 0, &FrameInput { key_u: true, ..no_input() });
    assert_eq!(names(&sent), vec!["Unmortgage { tile_index: 6 }"]);
    c.respond(&g, 0, &FrameInput { panel_card: Some(6), ..no_input() });
    c.respond(&g, 0, &FrameInput { panel_card: Some(6), ..no_input() });
    assert_eq!(c.selected_card, None);
    c.respond(&g, 0, &FrameInput { panel_card: Some(8), ..no_input() });
    c.respond(&g, 0, &FrameInput { escape: true, ..no_input() });
    assert_eq!(c.selected_card, None);
    // A closed panel takes no clicks.
    c.card_panel_open = false;
    c.respond(&g, 0, &FrameInput { panel_card: Some(8), ..no_input() });
    assert_eq!(c.selected_card, None);
}

#[test]
fn turn_keys_by_phase() {
    let mut g = game(2);
    let mut c = GameControls::new();
    let cases = [
        (TurnPhase::WaitingForRoll, FrameInput { space: true, ..no_input() }, vec!["RollDice"]),
        (TurnPhase::BuyDecision { tile_index: 3 }, FrameInput { key_b: true, key_d: true, ..no_input() }, vec!["BuyProperty", "DeclineProperty"]),
        (TurnPhase::PostRoll, FrameInput { key_e: true, ..no_input() }, vec!["EndTurn"]),
        (TurnPhase::JailDecision, FrameInput { key_p: true, key_r: true, ..no_input() }, vec!["PayJailFine", "RollForJail"]),
        (TurnPhase::PayingRent { amount: 4, to_player: 1 }, FrameInput { key_e: true, ..no_input() }, vec!["PayRent"]),
        (TurnPhase::EndTurn, FrameInput { key_e: true, space: true, ..no_input() }, vec![]),
    ];
    for (phase, input, want) in cases {
        g.turn_phase = phase;
        assert_eq!(names(&c.respond(&g, 0, &input)), want);
        // Another player's keys do nothing in this phase.
        assert!(c.respond(&g, 1, &input).is_empty());
    }
}

#[test]
fn buying_waits_while_a_card_is_shown() {
    let mut g = game(2);
    g.turn_phase = TurnPhase::BuyDecision { tile_index: 3 };
    let mut c = GameControls::new();
    c.selected_card = Some(1);
    let sent = c.respond(&g, 0, &FrameInput { key_b: true, ..no_input() });
    assert_eq!(names(&sent), vec!["BuildHouse { tile_index: 1 }"]);
}

#[test]
fn trade_answers_at_any_time() {
    let g = game(2);
    let mut c = GameControls::new();
    let sent = c.respond(&g, 1, &FrameInput { key_y: true, key_n: true, ..no_input() });
    assert_eq!(names(&sent), vec!["AcceptTrade", "RejectTrade"]);
}

#[test]
fn typed_fields_hold_only_digits() {
    let mut g = game(2);
    let mut c = GameControls::new();
    let keys = ['1', 'a', ' ', '0', '+', '9', '-', '3'];
    g.turn_phase = TurnPhase::Auction { tile_index: 1, highest_bid: 0, highest_bidder: 0 };
    for (i, &ch) in keys.iter().enumerate() {
        c.respond(&g, 0, &FrameInput { typed: Some(ch), backspace: i % 3 == 2, ..no_input() });
        assert!(c.bid_input.iter().all(|d| d.is_ascii_digit()));
    }
    g.turn_phase = TurnPhase::PostRoll;
    c.trade_screen = Some(TradeScreenState::new(1));
    for (i, &ch) in keys.iter().enumerate() {
        c.respond(&g, 0, &FrameInput { typed: Some(ch), backspace: i % 2 == 1, tab: i % 3 == 0, ..no_input() });
        let t = c.trade_screen.as_ref().unwrap();
        for field in [&t.offered_money_input, &t.requested_money_input] {
            assert!(!field.is_empty());
            assert!(field.iter().all(|d| d.is_ascii_digit()));
        }
    }
}

#[test]
fn cards_are_grouped_in_first_seen_order() {
    let mut g = game(2);
    let prop = |c: ColorGroup| {
        Tile::Property(PropertyTile {
            name: "P".to_string(),
            color_group: c,
            price: 100,
            building_cost: 50,
            rent: [1, 2, 3, 4, 5, 6],
            owner: Some(0),
            houses: 0,
            mortgaged: false,
        })
    };
    g.board.tiles[1] = prop(ColorGroup::Brown);
    g.board.tiles[3] = prop(ColorGroup::Brown);
    g.board.tiles[5] = Tile::Railroad(RailroadTile { name: "R".to_string(), price: 200, owner: Some(0), mortgaged: false });
    g.board.tiles[6] = prop(ColorGroup::LightBlue);
    let groups = group_properties(&g, &vec![6, 1, 5, 0, 3]);
    assert_eq!(
        groups,
        vec![
            (CardGroup::Color(ColorGroup::LightBlue), vec![6]),
            (CardGroup::Color(ColorGroup::Brown), vec![1, 3]),
            (CardGroup::Railroad, vec![5]),
        ]
    );
    assert!(group_properties(&g, &vec![]).is_empty());
}

#[test]
fn trade_sums_never_get_a_leading_zero() {
    let g = game(2);
    let mut c = GameControls::new();
    c.trade_screen = Some(TradeScreenState::new(1));
    c.respond(&g, 0, &typed('0'));
    assert_eq!(c.trade_screen.as_ref().unwrap().offered_money_input, chars("0"));
    c.respond(&g, 0, &typed('0'));
    c.respond(&g, 0, &typed('4'));
    assert_eq!(c.trade_screen.as_ref().unwrap().offered_money_input, chars("4"));
    c.respond(&g, 0, &typed('0'));
    assert_eq!(c.trade_screen.as_ref().unwrap().offered_money_input, chars("40"));
    c.respond(&g, 0, &FrameInput { backspace: true, ..no_input() });
    c.respond(&g, 0, &FrameInput { backspace: true, ..no_input() });
    assert_eq!(c.trade_screen.as_ref().unwrap().offered_money_input, chars("0"));
}
