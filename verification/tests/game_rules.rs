use monopoly_core::bankruptcy::{declare_bankrupt, is_bankrupt, liquidation_value, BankruptcyResult};
use monopoly_core::board::{Board, ColorGroup, PropertyTile, RailroadTile, TaxTile, Tile, UtilityTile};
use monopoly_core::buildings::{build_house, mortgage_property, sell_house, unmortgage_property, BuildResult, MortgageResult};
use monopoly_core::buying::{buy_property, decline_purchase, finalize_auction, place_bid, BuyResult};
use monopoly_core::dice::DiceRoll;
use monopoly_core::jail::{pay_jail_fine, resolve_jail_roll, roll_for_jail, use_jail_card, JailResult};
use monopoly_core::movement::{advance_player, send_to_jail, MoveResult, JAIL_POSITION};
use monopoly_core::player::{Player, Token};
use monopoly_core::rent::calculate_rent;
use monopoly_core::ruleset::RuleSet;
use monopoly_core::state::{GameState, TurnPhase};
use monopoly_core::trading::{execute_trade, TradeOffer, TradeResult};

fn prop(name: &str, color: ColorGroup, price: u32, cost: u32, rent: [u32; 6]) -> Tile {
    Tile::Property(PropertyTile {
        name: name.to_string(),
        color_group: color,
        price,
        building_cost: cost,
        rent,
        owner: None,
        houses: 0,
        mortgaged: false,
    })
}

fn rail(name: &str) -> Tile {
    Tile::Railroad(RailroadTile { name: name.to_string(), price: 200, owner: None, mortgaged: false })
}

fn util(name: &str) -> Tile {
    Tile::Utility(UtilityTile { name: name.to_string(), price: 150, owner: None, mortgaged: false })
}

fn tax(name: &str, amount: u32) -> Tile {
    Tile::Tax(TaxTile { name: name.to_string(), amount })
}

fn standard_tiles() -> Vec<Tile> {
    vec![
        Tile::Go,
        prop("Mediterranean Avenue", ColorGroup::Brown, 60, 50, [2, 10, 30, 90, 160, 250]),
        Tile::CommunityChest,
        prop("Baltic Avenue", ColorGroup::Brown, 60, 50, [4, 20, 60, 180, 320, 450]),
        tax("Income Tax", 200),
        rail("Reading Railroad"),
        prop("Oriental Avenue", ColorGroup::LightBlue, 100, 50, [6, 30, 90, 270, 400, 550]),
        Tile::Chance,
        prop("Vermont Avenue", ColorGroup::LightBlue, 100, 50, [6, 30, 90, 270, 400, 550]),
        prop("Connecticut Avenue", ColorGroup::LightBlue, 120, 50, [8, 40, 100, 300, 450, 600]),
        Tile::Jail,
        prop("St. Charles Place", ColorGroup::Pink, 140, 100, [10, 50, 150, 450, 625, 750]),
        util("Electric Company"),
        prop("States Avenue", ColorGroup::Pink, 140, 100, [10, 50, 150, 450, 625, 750]),
        prop("Virginia Avenue", ColorGroup::Pink, 160, 100, [12, 60, 180, 500, 700, 900]),
        rail("Pennsylvania Railroad"),
        prop("St. James Place", ColorGroup::Orange, 180, 100, [14, 70, 200, 550, 750, 950]),
        Tile::CommunityChest,
        prop("Tennessee Avenue", ColorGroup::Orange, 180, 100, [14, 70, 200, 550, 750, 950]),
        prop("New York Avenue", ColorGroup::Orange, 200, 100, [16, 80, 220, 600, 800, 1000]),
        Tile::FreeParking,
        prop("Kentucky Avenue", ColorGroup::Red, 220, 150, [18, 90, 250, 700, 875, 1050]),
        Tile::Chance,
        prop("Indiana Avenue", ColorGroup::Red, 220, 150, [18, 90, 250, 700, 875, 1050]),
        prop("Illinois Avenue", ColorGroup::Red, 240, 150, [20, 100, 300, 750, 925, 1100]),
        rail("B&O Railroad"),
        prop("Atlantic Avenue", ColorGroup::Yellow, 260, 150, [22, 110, 330, 800, 975, 1150]),
        prop("Ventnor Avenue", ColorGroup::Yellow, 260, 150, [22, 110, 330, 800, 975, 1150]),
        util("Water Works"),
        prop("Marvin Gardens", ColorGroup::Yellow, 280, 150, [24, 120, 360, 850, 1025, 1200]),
        Tile::GoToJail,
        prop("Pacific Avenue", ColorGroup::Green, 300, 200, [26, 130, 390, 900, 1100, 1275]),
        prop("North Carolina Avenue", ColorGroup::Green, 300, 200, [26, 130, 390, 900, 1100, 1275]),
        Tile::CommunityChest,
        prop("Pennsylvania Avenue", ColorGroup::Green, 320, 200, [28, 150, 450, 1000, 1200, 1400]),
        rail("Short Line"),
        Tile::Chance,
        prop("Park Place", ColorGroup::DarkBlue, 350, 200, [35, 175, 500, 1100, 1300, 1500]),
        tax("Luxury Tax", 100),
        prop("Boardwalk", ColorGroup::DarkBlue, 400, 200, [50, 200, 600, 1400, 1700, 2000]),
    ]
}

fn new_game(n: u8) -> GameState {
    let tokens = [Token::Car, Token::Dog, Token::Hat, Token::Boot, Token::Iron, Token::Thimble];
    let players = (0..n)
        .map(|i| Player::new(i, format!("P{}", i), tokens[i as usize % 6], 1500))
        .collect();
    GameState {
        board: Board { tiles: standard_tiles() },
        players,
        current_player_index: 0,
        turn_phase: TurnPhase::WaitingForRoll,
        turn_number: 0,
        last_roll: None,
        free_parking_pot: 0,
        game_over: false,
        winner: None,
        houses_remaining: 32,
        hotels_remaining: 12,
        auction_passers: Vec::new(),
    }
}

/// Give tile `t` to player `id` (owner field and property list).
fn give(g: &mut GameState, t: usize, id: u8) {
    match &mut g.board.tiles[t] {
        Tile::Property(p) => p.owner = Some(id),
        Tile::Railroad(r) => r.owner = Some(id),
        Tile::Utility(u) => u.owner = Some(id),
        _ => panic!("not buyable"),
    }
    let k = g.players.iter().position(|p| p.id == id).unwrap();
    g.players[k].properties.push(t);
}

fn set_houses(g: &mut GameState, t: usize, h: u8) {
    if let Tile::Property(p) = &mut g.board.tiles[t] {
        p.houses = h;
    } else {
        panic!("not a property");
    }
}

fn houses(g: &GameState, t: usize) -> u8 {
    match &g.board.tiles[t] {
        Tile::Property(p) => p.houses,
        _ => panic!("not a property"),
    }
}

fn owner(g: &GameState, t: usize) -> Option<u8> {
    match &g.board.tiles[t] {
        Tile::Property(p) => p.owner,
        Tile::Railroad(r) => r.owner,
        Tile::Utility(u) => u.owner,
        _ => None,
    }
}

fn mortgaged(g: &GameState, t: usize) -> bool {
    match &g.board.tiles[t] {
        Tile::Property(p) => p.mortgaged,
        Tile::Railroad(r) => r.mortgaged,
        Tile::Utility(u) => u.mortgaged,
        _ => false,
    }
}

fn total_cash(g: &GameState) -> u64 {
    g.players.iter().map(|p| p.money as u64).sum()
}

fn roll(a: u8, b: u8) -> DiceRoll {
    DiceRoll { die1: a, die2: b }
}

fn idx(g: &GameState, id: u8) -> usize {
    g.players.iter().position(|p| p.id == id).unwrap()
}

// ---------------------------------------------------------------- players

#[test]
fn new_player_starts_at_go_with_its_money() {
    let p = Player::new(3, "Ann".to_string(), Token::Hat, 1500);
    assert_eq!(p.id, 3);
    assert_eq!(p.name, "Ann");
    assert_eq!(p.token, Token::Hat);
    assert_eq!(p.money, 1500);
    assert_eq!(p.position, 0);
    assert!(!p.in_jail);
    assert_eq!(p.jail_turns, 0);
    assert_eq!(p.get_out_of_jail, 0);
    assert!(!p.bankrupt);
    assert!(p.properties.is_empty());
    assert!(p.is_solvent());
}

#[test]
fn bankrupt_player_is_not_solvent() {
    let mut p = Player::new(0, "A".to_string(), Token::Car, 0);
    assert!(p.is_solvent());
    p.bankrupt = true;
    assert!(!p.is_solvent());
}

#[test]
fn standard_ruleset_values() {
    let r = RuleSet::standard();
    assert_eq!(r.name, "Standard Monopoly");
    assert_eq!(r.starting_money, 1500);
    assert_eq!(r.go_salary, 200);
    assert_eq!(r.jail_fine, 50);
    assert_eq!(r.max_jail_turns, 3);
    assert!(r.doubles_to_exit_jail);
    assert_eq!(r.max_houses, 32);
    assert_eq!(r.max_hotels, 12);
    assert_eq!(r.houses_per_hotel, 4);
    assert!(r.auction_enabled);
    assert!(!r.free_parking_pot);
    assert!(r.debt_to_bank_eliminates);
}

// ---------------------------------------------------------------- state

#[test]
fn advance_turn_moves_to_next_seat_and_resets() {
    let mut g = new_game(3);
    g.current_player_index = 2;
    g.turn_phase = TurnPhase::PostRoll;
    g.turn_number = 7;
    g.last_roll = Some((2, 3));
    g.auction_passers = vec![0, 1];
    g.advance_turn();
    assert_eq!(g.current_player_index, 0);
    assert_eq!(g.turn_phase, TurnPhase::WaitingForRoll);
    assert_eq!(g.turn_number, 8);
    assert_eq!(g.last_roll, None);
    assert!(g.auction_passers.is_empty());
}

#[test]
fn turns_come_back_after_a_full_round() {
    let mut g = new_game(4);
    g.current_player_index = 1;
    for _ in 0..4 {
        g.advance_turn();
    }
    assert_eq!(g.current_player_index, 1);
    assert_eq!(g.turn_number, 4);
}

#[test]
fn active_players_skip_the_bankrupt() {
    let mut g = new_game(3);
    g.players[1].bankrupt = true;
    let ids: Vec<u8> = g.active_players().iter().map(|p| p.id).collect();
    assert_eq!(ids, vec![0, 2]);
    g.current_player_index = 2;
    assert_eq!(g.current_player().id, 2);
    g.current_player_mut().money = 7;
    assert_eq!(g.players[2].money, 7);
}

#[test]
fn snapshot_copies_the_state() {
    let mut g = new_game(2);
    give(&mut g, 1, 0);
    let s = g.snapshot();
    assert_eq!(s.players.len(), 2);
    assert_eq!(owner(&s, 1), Some(0));
    assert_eq!(s.players[0].properties, vec![1]);
    assert_eq!(s.houses_remaining, 32);
}

// ---------------------------------------------------------------- rent

#[test]
fn property_rent_base_doubled_and_built() {
    let mut g = new_game(2);
    give(&mut g, 1, 1);
    assert_eq!(calculate_rent(&g, 1, &roll(1, 2)), 2);
    give(&mut g, 3, 1);
    // Full brown group, no houses: double rent.
    assert_eq!(calculate_rent(&g, 1, &roll(1, 2)), 4);
    assert_eq!(calculate_rent(&g, 3, &roll(1, 2)), 8);
    set_houses(&mut g, 1, 2);
    assert_eq!(calculate_rent(&g, 1, &roll(1, 2)), 30);
    set_houses(&mut g, 1, 5);
    assert_eq!(calculate_rent(&g, 1, &roll(1, 2)), 250);
}

#[test]
fn railroad_rent_grows_with_railroads_owned() {
    let mut g = new_game(2);
    give(&mut g, 5, 1);
    assert_eq!(calculate_rent(&g, 5, &roll(1, 2)), 25);
    give(&mut g, 15, 1);
    assert_eq!(calculate_rent(&g, 5, &roll(1, 2)), 50);
    give(&mut g, 25, 1);
    assert_eq!(calculate_rent(&g, 15, &roll(1, 2)), 100);
    give(&mut g, 35, 1);
    assert_eq!(calculate_rent(&g, 35, &roll(1, 2)), 200);
}

#[test]
fn utility_rent_multiplies_the_dice() {
    let mut g = new_game(2);
    give(&mut g, 12, 1);
    assert_eq!(calculate_rent(&g, 12, &roll(3, 4)), 28);
    give(&mut g, 28, 1);
    assert_eq!(calculate_rent(&g, 12, &roll(3, 4)), 70);
}

#[test]
fn mortgaged_tiles_collect_no_rent() {
    let mut g = new_game(2);
    give(&mut g, 1, 1);
    give(&mut g, 5, 1);
    give(&mut g, 12, 1);
    for t in [1usize, 5, 12] {
        match &mut g.board.tiles[t] {
            Tile::Property(p) => p.mortgaged = true,
            Tile::Railroad(r) => r.mortgaged = true,
            Tile::Utility(u) => u.mortgaged = true,
            _ => unreachable!(),
        }
        assert_eq!(calculate_rent(&g, t, &roll(6, 6)), 0);
    }
}

#[test]
fn unbuyable_tiles_collect_no_rent() {
    let g = new_game(2);
    for t in [0usize, 2, 4, 7, 10, 20, 30] {
        assert_eq!(calculate_rent(&g, t, &roll(2, 3)), 0);
    }
}

// ---------------------------------------------------------------- buying

#[test]
fn buying_an_unowned_property() {
    let mut g = new_game(2);
    assert_eq!(buy_property(&mut g, 1), BuyResult::Purchased);
    assert_eq!(g.players[0].money, 1440);
    assert_eq!(owner(&g, 1), Some(0));
    assert_eq!(g.players[0].properties, vec![1]);
    assert_eq!(g.turn_phase, TurnPhase::PostRoll);
}

#[test]
fn buying_refusals_leave_the_state_alone() {
    let mut g = new_game(2);
    give(&mut g, 5, 1);
    assert_eq!(buy_property(&mut g, 5), BuyResult::AlreadyOwned);
    assert_eq!(buy_property(&mut g, 0), BuyResult::NotBuyable);
    assert_eq!(buy_property(&mut g, 7), BuyResult::NotBuyable);
    g.players[0].money = 399;
    assert_eq!(buy_property(&mut g, 39), BuyResult::InsufficientFunds);
    assert_eq!(g.players[0].money, 399);
    assert_eq!(owner(&g, 39), None);
    assert!(g.players[0].properties.is_empty());
    assert_eq!(g.turn_phase, TurnPhase::WaitingForRoll);
}

#[test]
fn declining_starts_an_auction_or_moves_on() {
    let mut g = new_game(2);
    g.current_player_index = 1;
    decline_purchase(&mut g, 6, true);
    assert_eq!(g.turn_phase, TurnPhase::Auction { tile_index: 6, highest_bid: 0, highest_bidder: 1 });
    let mut h = new_game(2);
    decline_purchase(&mut h, 6, false);
    assert_eq!(h.turn_phase, TurnPhase::PostRoll);
}

#[test]
fn bids_must_rise_and_be_affordable() {
    let mut g = new_game(3);
    assert!(!place_bid(&mut g, 1, 10));
    decline_purchase(&mut g, 6, true);
    assert!(place_bid(&mut g, 1, 100));
    assert_eq!(g.turn_phase, TurnPhase::Auction { tile_index: 6, highest_bid: 100, highest_bidder: 1 });
    assert!(!place_bid(&mut g, 2, 100));
    assert!(!place_bid(&mut g, 2, 50));
    assert!(!place_bid(&mut g, 2, 1501));
    assert!(!place_bid(&mut g, 9, 200));
    assert!(place_bid(&mut g, 2, 120));
    assert_eq!(g.turn_phase, TurnPhase::Auction { tile_index: 6, highest_bid: 120, highest_bidder: 2 });
}

#[test]
fn finalizing_an_auction_awards_the_tile() {
    let mut g = new_game(3);
    decline_purchase(&mut g, 6, true);
    assert!(place_bid(&mut g, 2, 150));
    finalize_auction(&mut g);
    assert_eq!(g.players[2].money, 1350);
    assert_eq!(owner(&g, 6), Some(2));
    assert_eq!(g.players[2].properties, vec![6]);
    assert_eq!(g.turn_phase, TurnPhase::PostRoll);
}

#[test]
fn finalizing_without_bids_awards_nothing() {
    let mut g = new_game(2);
    decline_purchase(&mut g, 6, true);
    finalize_auction(&mut g);
    assert_eq!(owner(&g, 6), None);
    assert_eq!(total_cash(&g), 3000);
    assert_eq!(g.turn_phase, TurnPhase::PostRoll);
    // Outside an auction nothing happens.
    let mut h = new_game(2);
    finalize_auction(&mut h);
    assert_eq!(h.turn_phase, TurnPhase::WaitingForRoll);
}

// ---------------------------------------------------------------- buildings

fn brown_monopoly() -> GameState {
    let mut g = new_game(2);
    give(&mut g, 1, 0);
    give(&mut g, 3, 0);
    g
}

#[test]
fn building_houses_evenly() {
    let mut g = brown_monopoly();
    assert_eq!(build_house(&mut g, 1), BuildResult::Built);
    assert_eq!(houses(&g, 1), 1);
    assert_eq!(g.players[0].money, 1450);
    assert_eq!(g.houses_remaining, 31);
    // Must build evenly across the group.
    assert_eq!(build_house(&mut g, 1), BuildResult::IncompleteGroup);
    assert_eq!(build_house(&mut g, 3), BuildResult::Built);
    assert_eq!(build_house(&mut g, 1), BuildResult::Built);
    assert_eq!(houses(&g, 1), 2);
    assert_eq!(g.houses_remaining, 29);
}

#[test]
fn building_refusals() {
    let mut g = new_game(2);
    give(&mut g, 1, 0);
    assert_eq!(build_house(&mut g, 1), BuildResult::IncompleteGroup);
    assert_eq!(build_house(&mut g, 5), BuildResult::NotAProperty);
    give(&mut g, 6, 1);
    assert_eq!(build_house(&mut g, 6), BuildResult::NotOwner);
    let mut m = brown_monopoly();
    if let Tile::Property(p) = &mut m.board.tiles[1] {
        p.mortgaged = true;
    }
    assert_eq!(build_house(&mut m, 1), BuildResult::NotAProperty);
    let mut full = brown_monopoly();
    set_houses(&mut full, 1, 5);
    set_houses(&mut full, 3, 5);
    assert_eq!(build_house(&mut full, 1), BuildResult::MaxReached);
    let mut poor = brown_monopoly();
    poor.players[0].money = 49;
    assert_eq!(build_house(&mut poor, 1), BuildResult::InsufficientFunds);
    assert_eq!(poor.players[0].money, 49);
    assert_eq!(houses(&poor, 1), 0);
}

#[test]
fn building_needs_supply() {
    let mut g = brown_monopoly();
    g.houses_remaining = 0;
    assert_eq!(build_house(&mut g, 1), BuildResult::NoSupply);
    let mut h = brown_monopoly();
    set_houses(&mut h, 1, 4);
    set_houses(&mut h, 3, 4);
    h.hotels_remaining = 0;
    assert_eq!(build_house(&mut h, 1), BuildResult::NoSupply);
}

#[test]
fn hotel_returns_four_houses() {
    let mut g = brown_monopoly();
    set_houses(&mut g, 1, 4);
    set_houses(&mut g, 3, 4);
    g.houses_remaining = 24;
    assert_eq!(build_house(&mut g, 1), BuildResult::Built);
    assert_eq!(houses(&g, 1), 5);
    assert_eq!(g.houses_remaining, 28);
    assert_eq!(g.hotels_remaining, 11);
    // Selling the hotel takes four houses back out of the supply.
    assert_eq!(sell_house(&mut g, 1), BuildResult::Built);
    assert_eq!(houses(&g, 1), 4);
    assert_eq!(g.houses_remaining, 24);
    assert_eq!(g.hotels_remaining, 12);
    assert_eq!(g.players[0].money, 1500 - 50 + 25);
}

#[test]
fn selling_houses() {
    let mut g = brown_monopoly();
    set_houses(&mut g, 1, 1);
    set_houses(&mut g, 3, 2);
    g.houses_remaining = 29;
    // Must sell evenly: tile 3 has more.
    assert_eq!(sell_house(&mut g, 1), BuildResult::IncompleteGroup);
    assert_eq!(sell_house(&mut g, 3), BuildResult::Built);
    assert_eq!(houses(&g, 3), 1);
    assert_eq!(g.players[0].money, 1525);
    assert_eq!(g.houses_remaining, 30);
    let mut e = brown_monopoly();
    assert_eq!(sell_house(&mut e, 1), BuildResult::NotAProperty);
    assert_eq!(sell_house(&mut e, 5), BuildResult::NotAProperty);
    give(&mut e, 6, 1);
    set_houses(&mut e, 6, 1);
    assert_eq!(sell_house(&mut e, 6), BuildResult::NotOwner);
}

#[test]
fn sell_right_after_build_restores_all_but_half_the_cost() {
    let mut g = brown_monopoly();
    let before_houses = g.houses_remaining;
    assert_eq!(build_house(&mut g, 3), BuildResult::Built);
    assert_eq!(sell_house(&mut g, 3), BuildResult::Built);
    assert_eq!(houses(&g, 3), 0);
    assert_eq!(g.houses_remaining, before_houses);
    assert_eq!(g.players[0].money, 1500 - 25);
}

#[test]
fn building_keeps_the_bank_stock() {
    let mut g = brown_monopoly();
    let stock = |g: &GameState| {
        let on_board: u32 = [1usize, 3].iter().map(|&t| if houses(g, t) < 5 { houses(g, t) as u32 } else { 0 }).sum();
        let hotels: u32 = [1usize, 3].iter().map(|&t| if houses(g, t) == 5 { 1 } else { 0 }).sum();
        (g.houses_remaining as u32 + on_board, g.hotels_remaining as u32 + hotels)
    };
    let start = stock(&g);
    for _ in 0..5 {
        assert_eq!(build_house(&mut g, 1), BuildResult::Built);
        assert_eq!(stock(&g), start);
        assert_eq!(build_house(&mut g, 3), BuildResult::Built);
        assert_eq!(stock(&g), start);
    }
    assert_eq!(sell_house(&mut g, 3), BuildResult::Built);
    assert_eq!(stock(&g), start);
}

#[test]
fn a_hotel_is_not_broken_down_without_four_bank_houses() {
    let mut g = brown_monopoly();
    set_houses(&mut g, 1, 5);
    set_houses(&mut g, 3, 5);
    g.houses_remaining = 3;
    let hotels = g.hotels_remaining;
    let money = g.players[0].money;
    assert_eq!(sell_house(&mut g, 3), BuildResult::NoSupply);
    assert_eq!(houses(&g, 3), 5);
    assert_eq!(g.houses_remaining, 3);
    assert_eq!(g.hotels_remaining, hotels);
    assert_eq!(g.players[0].money, money);
    g.houses_remaining = 4;
    assert_eq!(sell_house(&mut g, 3), BuildResult::Built);
    assert_eq!(houses(&g, 3), 4);
    assert_eq!(g.houses_remaining, 0);
}

// ---------------------------------------------------------------- mortgages

#[test]
fn mortgage_and_unmortgage() {
    let mut g = new_game(2);
    give(&mut g, 1, 0);
    assert_eq!(mortgage_property(&mut g, 1), MortgageResult::Mortgaged { value: 30 });
    assert!(mortgaged(&g, 1));
    assert_eq!(g.players[0].money, 1530);
    assert_eq!(mortgage_property(&mut g, 1), MortgageResult::AlreadyMortgaged);
    assert_eq!(unmortgage_property(&mut g, 1), MortgageResult::Unmortgaged { cost: 36 });
    assert!(!mortgaged(&g, 1));
    assert_eq!(g.players[0].money, 1494);
    assert_eq!(unmortgage_property(&mut g, 1), MortgageResult::NotMortgaged);
}

#[test]
fn mortgage_refusals() {
    let mut g = brown_monopoly();
    set_houses(&mut g, 3, 1);
    assert_eq!(mortgage_property(&mut g, 3), MortgageResult::HasBuildings);
    assert_eq!(mortgage_property(&mut g, 0), MortgageResult::NotAProperty);
    assert_eq!(unmortgage_property(&mut g, 4), MortgageResult::NotAProperty);
    give(&mut g, 5, 1);
    assert_eq!(mortgage_property(&mut g, 5), MortgageResult::NotOwner);
    assert_eq!(unmortgage_property(&mut g, 5), MortgageResult::NotOwner);
    give(&mut g, 12, 0);
    assert_eq!(mortgage_property(&mut g, 12), MortgageResult::Mortgaged { value: 75 });
    g.players[0].money = 10;
    assert_eq!(unmortgage_property(&mut g, 12), MortgageResult::InsufficientFunds);
    assert!(mortgaged(&g, 12));
    assert_eq!(g.players[0].money, 10);
}

#[test]
fn railroad_mortgage_round_trip_costs_a_tenth() {
    let mut g = new_game(2);
    give(&mut g, 5, 0);
    assert_eq!(mortgage_property(&mut g, 5), MortgageResult::Mortgaged { value: 100 });
    assert_eq!(unmortgage_property(&mut g, 5), MortgageResult::Unmortgaged { cost: 120 });
    assert_eq!(g.players[0].money, 1500 - 20);
    assert!(!mortgaged(&g, 5));
}

// ---------------------------------------------------------------- movement

#[test]
fn moving_onto_chance() {
    let mut g = new_game(2);
    assert_eq!(advance_player(&mut g, &roll(3, 4), 200), MoveResult::LandedOnChance { tile_index: 7 });
    assert_eq!(g.players[0].position, 7);
    assert_eq!(g.players[0].money, 1500);
    assert_eq!(g.last_roll, Some((3, 4)));
    assert_eq!(g.turn_phase, TurnPhase::PostRoll);
}

#[test]
fn landing_on_go_pays_salary() {
    let mut g = new_game(2);
    g.players[0].position = 35;
    assert_eq!(advance_player(&mut g, &roll(3, 2), 200), MoveResult::PassedGo);
    assert_eq!(g.players[0].position, 0);
    assert_eq!(g.players[0].money, 1700);
}

#[test]
fn passing_go_pays_salary_then_lands() {
    let mut g = new_game(2);
    g.players[0].position = 38;
    assert_eq!(advance_player(&mut g, &roll(1, 2), 200), MoveResult::LandedOnProperty { tile_index: 1 });
    assert_eq!(g.players[0].position, 1);
    assert_eq!(g.players[0].money, 1700);
}

#[test]
fn landing_on_go_to_jail() {
    let mut g = new_game(2);
    g.players[0].position = 25;
    assert_eq!(advance_player(&mut g, &roll(2, 3), 200), MoveResult::SentToJail);
    assert_eq!(g.players[0].position, JAIL_POSITION);
    assert!(g.players[0].in_jail);
    assert_eq!(g.turn_phase, TurnPhase::JailDecision);
}

#[test]
fn landing_results_by_tile() {
    let mut g = new_game(2);
    give(&mut g, 6, 1);
    give(&mut g, 9, 0);
    assert_eq!(advance_player(&mut g, &roll(1, 3), 200), MoveResult::LandedOnTax { amount: 200 });
    assert_eq!(advance_player(&mut g, &roll(1, 1), 200), MoveResult::LandedOnOwnedProperty { tile_index: 6, owner: 1 });
    assert_eq!(advance_player(&mut g, &roll(1, 2), 200), MoveResult::NoEffect);
    assert_eq!(advance_player(&mut g, &roll(1, 7), 200), MoveResult::LandedOnCommunityChest { tile_index: 17 });
    assert_eq!(advance_player(&mut g, &roll(1, 2), 200), MoveResult::NoEffect);
    assert_eq!(g.players[0].position, 20);
    assert_eq!(advance_player(&mut g, &roll(4, 4), 200), MoveResult::LandedOnProperty { tile_index: 28 });
    g.players[0].position = 5;
    assert_eq!(advance_player(&mut g, &roll(2, 3), 200), MoveResult::NoEffect);
    assert_eq!(g.players[0].money, 1500);
}

#[test]
fn moves_stay_on_the_board() {
    for start in 0..40usize {
        for a in 1..=6u8 {
            for b in 1..=6u8 {
                let mut g = new_game(2);
                g.players[0].position = start;
                let before = g.players[0].money;
                advance_player(&mut g, &roll(a, b), 200);
                let pos = g.players[0].position;
                assert!(pos < 40);
                let target = (start + (a + b) as usize) % 40;
                let passed = target < start || target == 0;
                assert_eq!(g.players[0].money, if passed { before + 200 } else { before });
            }
        }
    }
}

#[test]
fn send_to_jail_sets_position_and_phase() {
    let mut g = new_game(2);
    g.players[0].position = 22;
    g.players[0].jail_turns = 2;
    send_to_jail(&mut g);
    assert_eq!(g.players[0].position, 10);
    assert!(g.players[0].in_jail);
    assert_eq!(g.players[0].jail_turns, 0);
    assert_eq!(g.turn_phase, TurnPhase::JailDecision);
}

// ---------------------------------------------------------------- jail

fn jailed_game() -> GameState {
    let mut g = new_game(2);
    send_to_jail(&mut g);
    g
}

#[test]
fn paying_the_jail_fine() {
    let mut g = jailed_game();
    assert_eq!(pay_jail_fine(&mut g, 50), JailResult::PaidFine);
    assert_eq!(g.players[0].money, 1450);
    assert!(!g.players[0].in_jail);
    assert_eq!(g.turn_phase, TurnPhase::WaitingForRoll);
    let mut poor = jailed_game();
    poor.players[0].money = 49;
    assert_eq!(pay_jail_fine(&mut poor, 50), JailResult::Bankrupt);
    assert!(poor.players[0].in_jail);
    assert_eq!(poor.players[0].money, 49);
}

#[test]
fn using_a_jail_card() {
    let mut g = jailed_game();
    g.players[0].jail_turns = 1;
    assert_eq!(use_jail_card(&mut g), JailResult::StillInJail { turns_served: 1 });
    assert!(g.players[0].in_jail);
    g.players[0].get_out_of_jail = 2;
    assert_eq!(use_jail_card(&mut g), JailResult::UsedCard);
    assert_eq!(g.players[0].get_out_of_jail, 1);
    assert!(!g.players[0].in_jail);
    assert_eq!(g.players[0].jail_turns, 0);
    assert_eq!(g.turn_phase, TurnPhase::WaitingForRoll);
}

#[test]
fn jail_roll_doubles_frees_and_moves() {
    let mut g = jailed_game();
    assert_eq!(resolve_jail_roll(&mut g, roll(2, 2), true, 50, 3, 200), JailResult::RolledDoubles { roll: roll(2, 2) });
    assert!(!g.players[0].in_jail);
    assert_eq!(g.players[0].position, 14);
    assert_eq!(g.players[0].money, 1500);
    assert_eq!(g.last_roll, Some((2, 2)));
}

#[test]
fn doubles_do_not_free_when_the_rules_say_so() {
    let mut g = jailed_game();
    assert_eq!(resolve_jail_roll(&mut g, roll(2, 2), false, 50, 3, 200), JailResult::StillInJail { turns_served: 1 });
    assert!(g.players[0].in_jail);
    assert_eq!(g.players[0].position, 10);
    assert_eq!(g.turn_phase, TurnPhase::EndTurn);
    // On the last allowed turn, the fine is paid and the player moves.
    let mut last = jailed_game();
    last.players[0].jail_turns = 2;
    assert_eq!(resolve_jail_roll(&mut last, roll(3, 3), false, 50, 3, 200), JailResult::ForcedOut);
    assert_eq!(last.players[0].money, 1450);
    assert_eq!(last.players[0].position, 16);
    for _ in 0..50 {
        let mut h = jailed_game();
        match roll_for_jail(&mut h, false, 50, 3, 200) {
            JailResult::StillInJail { turns_served } => assert_eq!(turns_served, 1),
            other => panic!("unexpected {:?}", other),
        }
    }
}

#[test]
fn jail_roll_without_doubles_serves_a_turn() {
    let mut g = jailed_game();
    assert_eq!(resolve_jail_roll(&mut g, roll(1, 2), true, 50, 3, 200), JailResult::StillInJail { turns_served: 1 });
    assert!(g.players[0].in_jail);
    assert_eq!(g.players[0].position, 10);
    assert_eq!(g.turn_phase, TurnPhase::EndTurn);
}

#[test]
fn jail_roll_forces_out_after_max_turns() {
    let mut g = jailed_game();
    g.players[0].jail_turns = 2;
    assert_eq!(resolve_jail_roll(&mut g, roll(1, 2), true, 50, 3, 200), JailResult::ForcedOut);
    assert!(!g.players[0].in_jail);
    assert_eq!(g.players[0].jail_turns, 0);
    assert_eq!(g.players[0].money, 1450);
    assert_eq!(g.players[0].position, 13);
    let mut poor = jailed_game();
    poor.players[0].jail_turns = 2;
    poor.players[0].money = 10;
    assert_eq!(resolve_jail_roll(&mut poor, roll(1, 2), true, 50, 3, 200), JailResult::Bankrupt);
    assert_eq!(poor.players[0].money, 10);
    assert_eq!(poor.players[0].jail_turns, 3);
}

#[test]
fn roll_for_jail_gives_a_legal_outcome() {
    for _ in 0..50 {
        let mut g = jailed_game();
        match roll_for_jail(&mut g, true, 50, 3, 200) {
            JailResult::RolledDoubles { roll } => {
                assert_eq!(roll.die1, roll.die2);
                assert!(!g.players[0].in_jail);
                assert_eq!(g.players[0].position, 10 + roll.total() as usize);
            }
            JailResult::StillInJail { turns_served } => {
                assert_eq!(turns_served, 1);
                assert!(g.players[0].in_jail);
            }
            other => panic!("unexpected {:?}", other),
        }
    }
}

// ---------------------------------------------------------------- trading

fn offer(from: u8, to: u8, op: Vec<usize>, om: u32, rp: Vec<usize>, rm: u32) -> TradeOffer {
    TradeOffer {
        from_player: from,
        to_player: to,
        offered_properties: op,
        offered_money: om,
        requested_properties: rp,
        requested_money: rm,
    }
}

#[test]
fn completed_trade_swaps_tiles_and_cash() {
    let mut g = new_game(2);
    give(&mut g, 1, 0);
    give(&mut g, 3, 0);
    give(&mut g, 5, 1);
    let r = execute_trade(&mut g, offer(0, 1, vec![1], 100, vec![5], 50));
    assert_eq!(r, TradeResult::Completed);
    assert_eq!(owner(&g, 1), Some(1));
    assert_eq!(owner(&g, 5), Some(0));
    assert_eq!(g.players[0].money, 1450);
    assert_eq!(g.players[1].money, 1550);
    assert_eq!(g.players[0].properties, vec![3, 5]);
    assert_eq!(g.players[1].properties, vec![1]);
    assert_eq!(total_cash(&g), 3000);
}

#[test]
fn trade_refusals() {
    let mut g = new_game(2);
    give(&mut g, 1, 0);
    give(&mut g, 3, 0);
    give(&mut g, 5, 1);
    assert_eq!(execute_trade(&mut g, offer(9, 1, vec![], 0, vec![], 0)), TradeResult::InvalidPlayer);
    assert_eq!(execute_trade(&mut g, offer(0, 9, vec![], 0, vec![], 0)), TradeResult::InvalidPlayer);
    assert_eq!(
        execute_trade(&mut g, offer(0, 1, vec![5], 0, vec![], 0)),
        TradeResult::PropertyNotOwned { tile_index: 5, player: 0 }
    );
    assert_eq!(
        execute_trade(&mut g, offer(0, 1, vec![0], 0, vec![], 0)),
        TradeResult::PropertyNotOwned { tile_index: 0, player: 0 }
    );
    assert_eq!(
        execute_trade(&mut g, offer(0, 1, vec![1], 0, vec![3], 0)),
        TradeResult::PropertyNotOwned { tile_index: 3, player: 1 }
    );
    set_houses(&mut g, 3, 1);
    assert_eq!(execute_trade(&mut g, offer(0, 1, vec![3], 0, vec![], 0)), TradeResult::HasBuildings { tile_index: 3 });
    assert_eq!(
        execute_trade(&mut g, offer(0, 1, vec![1], 1501, vec![], 0)),
        TradeResult::InsufficientFunds { player: 0 }
    );
    assert_eq!(
        execute_trade(&mut g, offer(0, 1, vec![1], 0, vec![], 1501)),
        TradeResult::InsufficientFunds { player: 1 }
    );
    assert_eq!(owner(&g, 1), Some(0));
    assert_eq!(owner(&g, 5), Some(1));
    assert_eq!(total_cash(&g), 3000);
    assert_eq!(g.players[0].properties, vec![1, 3]);
}

// ---------------------------------------------------------------- bankruptcy

#[test]
fn liquidation_counts_cash_properties_and_buildings() {
    let mut g = new_game(2);
    g.players[0].money = 100;
    give(&mut g, 1, 0);
    set_houses(&mut g, 1, 2);
    give(&mut g, 5, 0);
    if let Tile::Railroad(r) = &mut g.board.tiles[5] {
        r.mortgaged = true;
    }
    give(&mut g, 3, 0);
    set_houses(&mut g, 3, 5);
    // 100 cash + 30 + 2*25 (tile 1) + 0 (mortgaged railroad) + 30 + 5*25 (hotel on tile 3)
    assert_eq!(liquidation_value(&g, 0), 335);
    assert_eq!(liquidation_value(&g, 9), 0);
    assert!(is_bankrupt(&g, 0, 336));
    assert!(!is_bankrupt(&g, 0, 335));
    assert!(liquidation_value(&g, 1) >= g.players[1].money);
}

#[test]
fn solvent_player_cannot_go_bankrupt() {
    let mut g = new_game(3);
    assert_eq!(declare_bankrupt(&mut g, 0, None), BankruptcyResult::NotInsolvent);
    assert_eq!(declare_bankrupt(&mut g, 9, None), BankruptcyResult::NotInsolvent);
    assert!(!g.players[0].bankrupt);
}

#[test]
fn bankruptcy_to_the_bank_returns_properties() {
    let mut g = new_game(3);
    give(&mut g, 1, 0);
    give(&mut g, 3, 0);
    set_houses(&mut g, 1, 2);
    give(&mut g, 12, 0);
    if let Tile::Utility(u) = &mut g.board.tiles[12] {
        u.mortgaged = true;
    }
    g.players[0].money = 0;
    assert_eq!(declare_bankrupt(&mut g, 0, None), BankruptcyResult::Bankrupt { eliminated: 0 });
    for t in [1usize, 3, 12] {
        assert_eq!(owner(&g, t), None);
        assert!(!mortgaged(&g, t));
    }
    assert_eq!(houses(&g, 1), 0);
    assert!(g.players[0].bankrupt);
    assert_eq!(g.players[0].money, 0);
    assert!(g.players[0].properties.is_empty());
    assert!(!g.game_over);
}

#[test]
fn bankruptcy_to_a_creditor_hands_everything_over() {
    let mut g = new_game(3);
    give(&mut g, 1, 0);
    set_houses(&mut g, 1, 1);
    give(&mut g, 5, 2);
    give(&mut g, 15, 0);
    g.players[0].money = 300;
    g.players[0].bankrupt = true;
    assert_eq!(declare_bankrupt(&mut g, 0, Some(2)), BankruptcyResult::Bankrupt { eliminated: 0 });
    assert_eq!(g.players[2].money, 1800);
    assert_eq!(owner(&g, 1), Some(2));
    assert_eq!(owner(&g, 15), Some(2));
    assert_eq!(houses(&g, 1), 0);
    assert_eq!(g.players[2].properties, vec![5, 1, 15]);
    assert_eq!(g.players[0].money, 0);
    assert!(g.players[0].properties.is_empty());
    assert!(g.players[0].bankrupt);
}

#[test]
fn last_player_standing_wins() {
    let mut g = new_game(2);
    g.players[1].money = 0;
    assert_eq!(declare_bankrupt(&mut g, 1, Some(0)), BankruptcyResult::GameOver { winner: 0 });
    assert!(g.game_over);
    assert_eq!(g.winner, Some(0));
    assert!(g.players[1].bankrupt);
    assert_eq!(g.players[idx(&g, 0)].money, 1500);
}

// ---------------------------------------------------------------- boards built by hand

#[test]
fn small_board_wraps_positions() {
    let tiles = vec![Tile::Go, Tile::FreeParking, Tile::Tax(TaxTile { name: "T".to_string(), amount: 5 })];
    let mut g = new_game(2);
    g.board = Board { tiles };
    assert_eq!(advance_player(&mut g, &roll(1, 1), 10), MoveResult::LandedOnTax { amount: 5 });
    assert_eq!(advance_player(&mut g, &roll(1, 1), 10), MoveResult::PassedGo);
    assert_eq!(g.players[0].position, 1);
    assert_eq!(g.players[0].money, 1510);
}

// ---------------------------------------------------------------- ownership

fn ownership_agrees(g: &GameState) -> bool {
    let ids_distinct = g.players.iter().enumerate().all(|(i, p)| g.players.iter().skip(i + 1).all(|q| q.id != p.id));
    let lists_match = g.players.iter().all(|p| {
        (0..g.board.tiles.len()).all(|t| (owner(g, t) == Some(p.id)) == p.properties.contains(&t))
    });
    let on_board = g.players.iter().all(|p| p.properties.iter().all(|&t| t < g.board.tiles.len()));
    ids_distinct && lists_match && on_board
}

#[test]
fn every_operation_keeps_ownership_in_agreement() {
    let mut g = new_game(3);
    assert!(ownership_agrees(&g));
    // Player 0 buys Mediterranean and Baltic, builds, mortgages a railroad.
    assert_eq!(buy_property(&mut g, 1), BuyResult::Purchased);
    assert_eq!(buy_property(&mut g, 3), BuyResult::Purchased);
    assert_eq!(buy_property(&mut g, 5), BuyResult::Purchased);
    assert!(ownership_agrees(&g));
    assert_eq!(build_house(&mut g, 1), BuildResult::Built);
    assert_eq!(mortgage_property(&mut g, 5), MortgageResult::Mortgaged { value: 100 });
    advance_player(&mut g, &roll(3, 4), 200);
    assert!(ownership_agrees(&g));
    // An auction of Oriental Avenue won by player 2.
    decline_purchase(&mut g, 6, true);
    assert!(place_bid(&mut g, 2, 80));
    finalize_auction(&mut g);
    assert_eq!(owner(&g, 6), Some(2));
    assert!(ownership_agrees(&g));
    // A trade, with a repeated tile in the offer.
    assert_eq!(execute_trade(&mut g, offer(2, 0, vec![6, 6], 0, vec![5], 10)), TradeResult::Completed);
    assert_eq!(owner(&g, 6), Some(0));
    assert_eq!(owner(&g, 5), Some(2));
    assert!(ownership_agrees(&g));
    // Player 2 goes bankrupt to player 1, then player 0 to the bank.
    g.players[2].money = 0;
    assert_eq!(declare_bankrupt(&mut g, 2, Some(1)), BankruptcyResult::Bankrupt { eliminated: 2 });
    assert_eq!(owner(&g, 5), Some(1));
    assert!(ownership_agrees(&g));
    g.players[0].money = 0;
    assert_eq!(declare_bankrupt(&mut g, 0, None), BankruptcyResult::GameOver { winner: 1 });
    assert_eq!(owner(&g, 1), None);
    assert!(ownership_agrees(&g));
}

#[test]
fn being_ones_own_creditor_breaks_the_agreement() {
    let mut g = new_game(3);
    give(&mut g, 1, 0);
    g.players[0].money = 0;
    declare_bankrupt(&mut g, 0, Some(0));
    // The tile still names player 0, whose list is now empty.
    assert_eq!(owner(&g, 1), Some(0));
    assert!(g.players[0].properties.is_empty());
    assert!(!ownership_agrees(&g));
}

#[test]
fn mortgaging_and_selling_keep_what_a_player_can_raise() {
    let mut g = brown_monopoly();
    set_houses(&mut g, 1, 5);
    set_houses(&mut g, 3, 5);
    give(&mut g, 5, 0);
    let before = liquidation_value(&g, 0);
    // Selling the hotel on Baltic Avenue: half of 50 in cash, one building less.
    assert_eq!(sell_house(&mut g, 3), BuildResult::Built);
    assert_eq!(liquidation_value(&g, 0), before);
    assert_eq!(sell_house(&mut g, 1), BuildResult::Built);
    assert_eq!(liquidation_value(&g, 0), before);
    assert_eq!(mortgage_property(&mut g, 5), MortgageResult::Mortgaged { value: 100 });
    assert_eq!(liquidation_value(&g, 0), before);
}
