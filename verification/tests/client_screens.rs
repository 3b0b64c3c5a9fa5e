use monopoly_core::board::{Board, Tile};
use monopoly_core::network::{ClientMessage, ServerMessage};
use monopoly_core::player::{Player, Token};
use monopoly_core::screens::{tile_label, trim, keep_graphic, ClientScreen, ConnectField, ConnectForm, ConnectKeys, LobbyRoster};
use monopoly_core::state::{GameState, TurnPhase};

fn game(turn: u32) -> GameState {
    GameState {
        board: Board { tiles: vec![Tile::Go, Tile::Jail] },
        players: vec![Player::new(0, "Ann".to_string(), Token::Car, 1500), Player::new(1, "Bob".to_string(), Token::Dog, 1500)],
        current_player_index: 0,
        turn_phase: TurnPhase::WaitingForRoll,
        turn_number: turn,
        last_roll: None,
        free_parking_pot: 0,
        game_over: false,
        winner: None,
        houses_remaining: 32,
        hotels_remaining: 12,
        auction_passers: Vec::new(),
    }
}

fn text(v: &[char]) -> String {
    v.iter().collect()
}

fn key(c: char) -> ConnectKeys {
    ConnectKeys { typed: Some(c), ..ConnectKeys::default() }
}

#[test]
fn connect_form_starts_on_the_local_address() {
    let f = ConnectForm::new();
    assert_eq!(text(&f.addr_input), "127.0.0.1:7777");
    assert!(f.name_input.is_empty());
    assert_eq!(f.active_field, ConnectField::Address);
    assert!(!f.name_missing);
}

#[test]
fn typing_goes_to_the_active_field() {
    let mut f = ConnectForm::new();
    assert!(f.respond(&ConnectKeys { backspace: true, ..ConnectKeys::default() }).is_none());
    assert_eq!(text(&f.addr_input), "127.0.0.1:777");
    assert!(f.respond(&ConnectKeys { tab: true, ..ConnectKeys::default() }).is_none());
    for c in ['A', 'n', '\t', 'n', '\n', '\r'] {
        f.respond(&key(c));
    }
    assert_eq!(text(&f.name_input), "Ann");
    f.respond(&ConnectKeys { tab: true, ..ConnectKeys::default() });
    assert_eq!(f.active_field, ConnectField::Address);
    f.respond(&key('8'));
    assert_eq!(text(&f.addr_input), "127.0.0.1:7778");
}

#[test]
fn enter_needs_a_name() {
    let mut f = ConnectForm::new();
    assert!(f.respond(&ConnectKeys { enter: true, ..ConnectKeys::default() }).is_none());
    assert!(f.name_missing);
    f.respond(&ConnectKeys { tab: true, ..ConnectKeys::default() });
    f.respond(&key(' '));
    f.respond(&key('\u{3000}'));
    assert!(f.respond(&ConnectKeys { enter: true, ..ConnectKeys::default() }).is_none());
}

#[test]
fn enter_joins_with_a_trimmed_name_and_a_printable_address() {
    let mut f = ConnectForm::new();
    f.respond(&key(' '));
    f.respond(&ConnectKeys { tab: true, ..ConnectKeys::default() });
    for c in "  Ann Lee ".chars() {
        f.respond(&key(c));
    }
    let j = f.respond(&ConnectKeys { enter: true, ..ConnectKeys::default() }).unwrap();
    assert_eq!(text(&j.addr), "127.0.0.1:7777");
    assert_eq!(text(&j.name), "Ann Lee");
}

#[test]
fn trimming_and_filtering() {
    let v: Vec<char> = " \t a b \u{a0}".chars().collect();
    assert_eq!(text(&trim(&v)), "a b");
    assert!(trim(&"   ".chars().collect::<Vec<char>>()).is_empty());
    assert_eq!(text(&trim(&"x".chars().collect::<Vec<char>>())), "x");
    assert_eq!(text(&keep_graphic(&" 1.2 é~".chars().collect::<Vec<char>>())), "1.2~");
}

#[test]
fn lobby_joins_once_and_starts_on_s() {
    let mut r = LobbyRoster::new("Ann".to_string());
    let sent = r.respond(false);
    assert_eq!(sent.len(), 1);
    match &sent[0] {
        ClientMessage::Join { name, token } => {
            assert_eq!(name, "Ann");
            assert_eq!(*token, Token::Car);
        }
        other => panic!("unexpected {:?}", other),
    }
    assert!(r.joined);
    assert!(r.respond(false).is_empty());
    let sent = r.respond(true);
    assert_eq!(sent.len(), 1);
    assert!(matches!(sent[0], ClientMessage::StartGame));
}

#[test]
fn the_lobby_learns_its_id_and_roster() {
    let mut s = ClientScreen::Lobby(LobbyRoster::new("Bob".to_string()));
    s.hear(ServerMessage::JoinAck { assigned_id: 1 });
    s.hear(ServerMessage::LobbyState { players: vec![(0, "Ann".to_string(), Token::Car)] });
    s.hear(ServerMessage::PlayerJoined { id: 1, name: "Bob".to_string(), token: Token::Dog });
    s.hear(ServerMessage::TradeRejected);
    match &s {
        ClientScreen::Lobby(r) => {
            assert_eq!(r.my_id, Some(1));
            assert_eq!(r.players, vec![(0, "Ann".to_string(), Token::Car), (1, "Bob".to_string(), Token::Dog)]);
        }
        _ => panic!("not in the lobby"),
    }
}

#[test]
fn state_updates_open_then_refresh_the_game() {
    let mut s = ClientScreen::Lobby(LobbyRoster::new("Bob".to_string()));
    s.hear(ServerMessage::JoinAck { assigned_id: 1 });
    s.hear(ServerMessage::StateUpdate { state: game(0) });
    match &mut s {
        ClientScreen::Game(seat) => {
            assert_eq!(seat.my_id, 1);
            assert_eq!(seat.state.turn_number, 0);
            seat.controls.card_panel_open = true;
        }
        _ => panic!("not in the game"),
    }
    s.hear(ServerMessage::StateUpdate { state: game(5) });
    match &s {
        ClientScreen::Game(seat) => {
            assert_eq!(seat.state.turn_number, 5);
            assert!(seat.controls.card_panel_open);
        }
        _ => panic!("not in the game"),
    }
    s.hear(ServerMessage::GameOver { winner_id: 0, winner_name: "Ann".to_string() });
    match &s {
        ClientScreen::GameOver { winner_id, winner_name } => {
            assert_eq!(*winner_id, 0);
            assert_eq!(winner_name, "Ann");
        }
        _ => panic!("not over"),
    }
}

#[test]
fn a_seat_without_an_id_is_seat_zero() {
    let mut s = ClientScreen::Lobby(LobbyRoster::new("Bob".to_string()));
    s.hear(ServerMessage::StateUpdate { state: game(0) });
    assert!(matches!(&s, ClientScreen::Game(seat) if seat.my_id == 0));
}

#[test]
fn the_connect_screen_ignores_the_server() {
    let mut s = ClientScreen::start();
    s.hear(ServerMessage::JoinAck { assigned_id: 1 });
    s.hear(ServerMessage::StateUpdate { state: game(0) });
    assert!(matches!(&s, ClientScreen::Connect(f) if f.name_input.is_empty()));
}

#[test]
fn board_labels() {
    let named = |name: &str| Tile::Tax(monopoly_core::board::TaxTile { name: name.to_string(), amount: 1 });
    assert_eq!(tile_label(&named("Mediterranean Avenue")), "Mediter");
    assert_eq!(tile_label(&named("Tax")), "Tax");
    assert_eq!(tile_label(&named("Ünïcödé Street")), "Ünïcödé");
    assert_eq!(tile_label(&Tile::Go), "GO");
    assert_eq!(tile_label(&Tile::Jail), "JAIL");
    assert_eq!(tile_label(&Tile::FreeParking), "FREE");
    assert_eq!(tile_label(&Tile::GoToJail), "GO JAIL");
    assert_eq!(tile_label(&Tile::CommunityChest), "COM CHT");
    assert_eq!(tile_label(&Tile::Chance), "CHANCE");
}
