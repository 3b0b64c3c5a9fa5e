//! Game rules of Monopoly: board, players, rent, buying and auctions,
//! buildings and mortgages, jail, movement, trading, bankruptcy, card decks,
//! wire messages and the server's lobby and message engine.
pub mod bankruptcy;
pub mod board;
pub mod buildings;
pub mod buying;
pub mod controls;
pub mod cards;
pub mod dice;
pub mod engine;
pub mod guard;
pub mod jail;
pub mod laws;
pub mod loader;
pub mod lobby;
pub mod movement;
pub mod network;
pub mod ownership;
pub mod panels;
pub mod player;
pub mod rent;
pub mod ruleset;
pub mod screens;
pub mod state;
pub mod text;
pub mod trading;
pub mod turn_laws;

pub use board::Board;
pub use dice::DiceRoll;
pub use player::Player;
pub use rent::calculate_rent;
pub use ruleset::RuleSet;
pub use state::GameState;
pub use bankruptcy::{declare_bankrupt, is_bankrupt, liquidation_value};
pub use buildings::{build_house, mortgage_property, sell_house, unmortgage_property};
pub use buying::{buy_property, decline_purchase, finalize_auction, place_bid};
pub use cards::{build_card_decks, Card, CardDecks, CardEffect};
pub use jail::{pay_jail_fine, roll_for_jail, use_jail_card};
pub use loader::build_board;
pub use movement::{advance_player, send_to_jail};
