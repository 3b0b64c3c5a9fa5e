//! What the game screen shows, as values: the card of a tile, the action
//! panel, and the hover tooltip. The client only lays these out and paints
//! them.
use vstd::prelude::*;
use vstd::string::StringExecFns;
use crate::board::{Tile, ColorGroup};
use crate::buildings::{mortgage_value, unmortgage_cost};
use crate::rent::{railroad_rent, utility_rent};
use crate::state::{GameState, GameView, TurnPhase, find_id, find_player_index, lemma_find_id_found};
use crate::text::decimal_text;
use crate::controls::{FrameInput, turn_keys};
use crate::network::Request;

verus! {

// ---------------------------------------------------------------- the card of a tile

/// Which deed a card shows.
#[derive(Debug, Clone, Copy, PartialEq, Eq, Structural)]
pub enum DeedKind {
    /// A street, in its colour group
    TitleDeed(ColorGroup),
    Railroad,
    Utility,
}

/// An action offered on a card, with its key.
#[derive(Debug, Clone, Copy, PartialEq, Eq, Structural)]
pub enum CardAction {
    /// [M] Mortgage
    Mortgage,
    /// [B] Build
    Build,
    /// [U] Unmortgage
    Unmortgage,
}

/// The card of a tile that can be owned.
pub struct CardDetail {
    pub kind: DeedKind,
    pub name: String,
    pub price: u32,
    /// The cost of one building (streets only; 0 otherwise)
    pub building_cost: u32,
    /// The rent rows: a street's rent at 0 to 4 houses and with a hotel; a
    /// railroad's rent for 1 to 4 railroads owned; a utility's dice
    /// multiplier for 1 and 2 utilities owned
    pub rents: Vec<u32>,
    /// The rent row in force, highlighted (streets only)
    pub current_row: Option<usize>,
    pub mortgaged: bool,
    /// What mortgaging would bring
    pub mortgage_value: u32,
    /// What lifting the mortgage costs (shown on a mortgaged street)
    pub unmortgage_cost: Option<u32>,
    /// The actions offered, in order
    pub actions: Vec<CardAction>,
}

pub struct CardDetailView {
    pub kind: DeedKind,
    pub name: Seq<char>,
    pub price: u32,
    pub building_cost: u32,
    pub rents: Seq<u32>,
    pub current_row: Option<usize>,
    pub mortgaged: bool,
    pub mortgage_value: u32,
    pub unmortgage_cost: Option<u32>,
    pub actions: Seq<CardAction>,
}

impl View for CardDetail {
    type V = CardDetailView;

    open spec fn view(&self) -> CardDetailView {
        CardDetailView {
            kind: self.kind,
            name: self.name@,
            price: self.price,
            building_cost: self.building_cost,
            rents: self.rents@,
            current_row: self.current_row,
            mortgaged: self.mortgaged,
            mortgage_value: self.mortgage_value,
            unmortgage_cost: self.unmortgage_cost,
            actions: self.actions@,
        }
    }
}

/// The actions on a card: only the owner, on their own turn, gets any;
/// mortgage (and, on a street, build) while unmortgaged, else unmortgage.
pub open spec fn card_actions(mine: bool, mortgaged: bool, street: bool) -> Seq<CardAction> {
    if !mine {
        Seq::empty()
    } else if mortgaged {
        seq![CardAction::Unmortgage]
    } else if street {
        seq![CardAction::Mortgage, CardAction::Build]
    } else {
        seq![CardAction::Mortgage]
    }
}

/// The card of tile `t` as player `my_id` sees it; none for a tile that
/// cannot be owned.
pub open spec fn card_detail_spec(s: GameView, t: int, my_id: u8) -> Option<CardDetailView> {
    let tile = s.tiles[t];
    let mine = tile.owner() == Some(my_id) && s.current().id == my_id;
    match tile {
        Tile::Property(p) => Some(CardDetailView {
            kind: DeedKind::TitleDeed(p.color_group),
            name: p.name@,
            price: p.price,
            building_cost: p.building_cost,
            rents: seq![p.rent[0], p.rent[1], p.rent[2], p.rent[3], p.rent[4], p.rent[5]],
            current_row: if p.houses <= 5 { Some(p.houses as usize) } else { None },
            mortgaged: p.mortgaged,
            mortgage_value: mortgage_value(tile),
            unmortgage_cost: if p.mortgaged { Some(unmortgage_cost(tile)) } else { None },
            actions: card_actions(mine, p.mortgaged, true),
        }),
        Tile::Railroad(r) => Some(CardDetailView {
            kind: DeedKind::Railroad,
            name: r.name@,
            price: r.price,
            building_cost: 0,
            rents: seq![railroad_rent(1), railroad_rent(2), railroad_rent(3), railroad_rent(4)],
            current_row: None,
            mortgaged: r.mortgaged,
            mortgage_value: mortgage_value(tile),
            unmortgage_cost: None,
            actions: card_actions(mine, r.mortgaged, false),
        }),
        Tile::Utility(u) => Some(CardDetailView {
            kind: DeedKind::Utility,
            name: u.name@,
            price: u.price,
            building_cost: 0,
            rents: seq![utility_rent(1, 1) as u32, utility_rent(2, 1) as u32],
            current_row: None,
            mortgaged: u.mortgaged,
            mortgage_value: mortgage_value(tile),
            unmortgage_cost: None,
            actions: card_actions(mine, u.mortgaged, false),
        }),
        _ => None,
    }
}

fn actions_for(mine: bool, mortgaged: bool, street: bool) -> (v: Vec<CardAction>)
    ensures
        v@ == card_actions(mine, mortgaged, street),
{
    let mut v: Vec<CardAction> = Vec::new();
    if mine {
        if mortgaged {
            v.push(CardAction::Unmortgage);
        } else {
            v.push(CardAction::Mortgage);
            if street {
                v.push(CardAction::Build);
            }
        }
    }
    proof {
        if mine && mortgaged {
            assert(v@ =~= seq![CardAction::Unmortgage]);
        } else if mine && street {
            assert(v@ =~= seq![CardAction::Mortgage, CardAction::Build]);
        } else if mine {
            assert(v@ =~= seq![CardAction::Mortgage]);
        } else {
            assert(v@ =~= Seq::<CardAction>::empty());
        }
    }
    v
}

/// The card of tile `tile_index` as player `my_id` sees it: the deed, its
/// rent rows with the row in force, the mortgage figures, and the actions
/// offered; none for a tile that cannot be owned.
pub fn card_detail(state: &GameState, tile_index: usize, my_id: u8) -> (d: Option<CardDetail>)
    requires
        state@.has_current(),
        tile_index < state@.tiles.len(),
    ensures
        match d {
            Some(c) => card_detail_spec(state@, tile_index as int, my_id) == Some(c@),
            None => card_detail_spec(state@, tile_index as int, my_id) is None,
        },
{
    let tile = &state.board.tiles[tile_index];
    let my_turn = state.players[state.current_player_index].id == my_id;
    match tile {
        Tile::Property(p) => {
            let mine = p.owner == Some(my_id) && my_turn;
            let rents = vec![p.rent[0], p.rent[1], p.rent[2], p.rent[3], p.rent[4], p.rent[5]];
            let c = CardDetail {
                kind: DeedKind::TitleDeed(p.color_group),
                name: p.name.clone(),
                price: p.price,
                building_cost: p.building_cost,
                rents,
                current_row: if p.houses <= 5 { Some(p.houses as usize) } else { None },
                mortgaged: p.mortgaged,
                mortgage_value: p.price / 2,
                unmortgage_cost: if p.mortgaged { Some(p.price / 2 + p.price / 10) } else { None },
                actions: actions_for(mine, p.mortgaged, true),
            };
            proof {
                assert(c@.rents =~= seq![p.rent[0], p.rent[1], p.rent[2], p.rent[3], p.rent[4], p.rent[5]]);
            }
            Some(c)
        },
        Tile::Railroad(r) => {
            let mine = r.owner == Some(my_id) && my_turn;
            let rents: Vec<u32> = vec![25, 50, 100, 200];
            let c = CardDetail {
                kind: DeedKind::Railroad,
                name: r.name.clone(),
                price: r.price,
                building_cost: 0,
                rents,
                current_row: None,
                mortgaged: r.mortgaged,
                mortgage_value: r.price / 2,
                unmortgage_cost: None,
                actions: actions_for(mine, r.mortgaged, false),
            };
            proof {
                assert(c@.rents =~= seq![railroad_rent(1), railroad_rent(2), railroad_rent(3), railroad_rent(4)]);
            }
            Some(c)
        },
        Tile::Utility(u) => {
            let mine = u.owner == Some(my_id) && my_turn;
            let rents: Vec<u32> = vec![4, 10];
            let c = CardDetail {
                kind: DeedKind::Utility,
                name: u.name.clone(),
                price: u.price,
                building_cost: 0,
                rents,
                current_row: None,
                mortgaged: u.mortgaged,
                mortgage_value: u.price / 2,
                unmortgage_cost: None,
                actions: actions_for(mine, u.mortgaged, false),
            };
            proof {
                assert(c@.rents =~= seq![utility_rent(1, 1) as u32, utility_rent(2, 1) as u32]);
            }
            Some(c)
        },
        _ => None,
    }
}


// ---------------------------------------------------------------- the action panel

/// A key hint of the action panel.
#[derive(Debug, Clone, Copy, PartialEq, Eq, Structural)]
pub enum Hint {
    /// [SPACE] Roll the dice
    Roll,
    /// [B] Buy, at this price
    Buy { price: u32 },
    /// [D] Decline / Auction
    Decline,
    /// [E] End turn
    EndTurn,
    /// [T] Propose trade
    ProposeTrade,
    /// [P] Pay the jail fine
    PayFine,
    /// [R] Roll for doubles
    RollForDoubles,
    /// [E] Confirm the rent payment
    ConfirmRent,
}

/// What the action panel shows under its header.
pub enum PanelBody {
    /// An auction runs: the top bid, its bidder, and the bid being typed
    Auction { top_bid: u32, leader: u8, bid: Vec<char> },
    /// Another player's turn
    Waiting,
    /// One's own turn: the rent due, if any, and the key hints
    Actions { rent_due: Option<u32>, hints: Vec<Hint> },
    /// The turn is ending
    EndingTurn,
}

pub enum PanelBodyView {
    Auction { top_bid: u32, leader: u8, bid: Seq<char> },
    Waiting,
    Actions { rent_due: Option<u32>, hints: Seq<Hint> },
    EndingTurn,
}

impl View for PanelBody {
    type V = PanelBodyView;

    open spec fn view(&self) -> PanelBodyView {
        match self {
            PanelBody::Auction { top_bid, leader, bid } => PanelBodyView::Auction { top_bid: *top_bid, leader: *leader, bid: bid@ },
            PanelBody::Waiting => PanelBodyView::Waiting,
            PanelBody::Actions { rent_due, hints } => PanelBodyView::Actions { rent_due: *rent_due, hints: hints@ },
            PanelBody::EndingTurn => PanelBodyView::EndingTurn,
        }
    }
}

/// The action panel: whose turn it is, the last roll, and what can be done.
pub struct ActionPanel {
    /// Whether it is the viewer's turn ("YOUR TURN")
    pub my_turn: bool,
    /// The name of the player whose turn it is
    pub current_name: String,
    /// The last roll: both dice and their total
    pub rolled: Option<(u8, u8, u32)>,
    pub body: PanelBody,
}

pub struct ActionPanelView {
    pub my_turn: bool,
    pub current_name: Seq<char>,
    pub rolled: Option<(u8, u8, u32)>,
    pub body: PanelBodyView,
}

impl View for ActionPanel {
    type V = ActionPanelView;

    open spec fn view(&self) -> ActionPanelView {
        ActionPanelView {
            my_turn: self.my_turn,
            current_name: self.current_name@,
            rolled: self.rolled,
            body: self.body@,
        }
    }
}

/// A purchase decision names a tile on the board.
pub open spec fn panel_readable(s: GameView) -> bool {
    &&& s.has_current()
    &&& s.turn_phase matches TurnPhase::BuyDecision { tile_index } ==> tile_index < s.tiles.len()
}

/// What the panel shows under its header: an auction to everyone; else to
/// the player whose turn it is, the hints of the phase; else "waiting".
pub open spec fn panel_body_spec(s: GameView, my_id: u8, bid: Seq<char>) -> PanelBodyView {
    match s.turn_phase {
        TurnPhase::Auction { highest_bid, highest_bidder, .. } =>
            PanelBodyView::Auction { top_bid: highest_bid, leader: highest_bidder, bid },
        _ => if s.current().id != my_id {
            PanelBodyView::Waiting
        } else {
            match s.turn_phase {
                TurnPhase::WaitingForRoll => PanelBodyView::Actions { rent_due: None, hints: seq![Hint::Roll] },
                TurnPhase::BuyDecision { tile_index } => PanelBodyView::Actions {
                    rent_due: None,
                    hints: seq![Hint::Buy { price: s.tiles[tile_index as int].price() }, Hint::Decline],
                },
                TurnPhase::PostRoll => PanelBodyView::Actions { rent_due: None, hints: seq![Hint::EndTurn, Hint::ProposeTrade] },
                TurnPhase::JailDecision => PanelBodyView::Actions { rent_due: None, hints: seq![Hint::PayFine, Hint::RollForDoubles] },
                TurnPhase::PayingRent { amount, .. } => PanelBodyView::Actions { rent_due: Some(amount), hints: seq![Hint::ConfirmRent] },
                _ => PanelBodyView::EndingTurn,
            }
        },
    }
}

/// The action panel that player `my_id` sees, with `bid` typed so far.
pub open spec fn action_panel_spec(s: GameView, my_id: u8, bid: Seq<char>) -> ActionPanelView {
    ActionPanelView {
        my_turn: s.current().id == my_id,
        current_name: s.current().name,
        rolled: match s.last_roll {
            Some((d1, d2)) => Some((d1, d2, (d1 + d2) as u32)),
            None => None,
        },
        body: panel_body_spec(s, my_id, bid),
    }
}

fn hints2(a: Hint, b: Hint) -> (v: Vec<Hint>)
    ensures
        v@ == seq![a, b],
{
    let v = vec![a, b];
    proof { assert(v@ =~= seq![a, b]); }
    v
}

fn hints1(a: Hint) -> (v: Vec<Hint>)
    ensures
        v@ == seq![a],
{
    let v = vec![a];
    proof { assert(v@ =~= seq![a]); }
    v
}

/// The action panel that player `my_id` sees, with `bid` typed so far.
pub fn action_panel(state: &GameState, my_id: u8, bid: &Vec<char>) -> (p: ActionPanel)
    requires
        panel_readable(state@),
    ensures
        p@ == action_panel_spec(state@, my_id, bid@),
{
    let current = &state.players[state.current_player_index];
    let my_turn = current.id == my_id;
    let rolled = match state.last_roll {
        Some((d1, d2)) => Some((d1, d2, d1 as u32 + d2 as u32)),
        None => None,
    };
    let body = match &state.turn_phase {
        TurnPhase::Auction { tile_index: _, highest_bid, highest_bidder } =>
            PanelBody::Auction { top_bid: *highest_bid, leader: *highest_bidder, bid: bid.clone() },
        phase => if !my_turn {
            PanelBody::Waiting
        } else {
            match phase {
                TurnPhase::WaitingForRoll => PanelBody::Actions { rent_due: None, hints: hints1(Hint::Roll) },
                TurnPhase::BuyDecision { tile_index } => {
                    let price = match &state.board.tiles[*tile_index] {
                        Tile::Property(p) => p.price,
                        Tile::Railroad(r) => r.price,
                        Tile::Utility(u) => u.price,
                        _ => 0,
                    };
                    PanelBody::Actions { rent_due: None, hints: hints2(Hint::Buy { price }, Hint::Decline) }
                },
                TurnPhase::PostRoll => PanelBody::Actions { rent_due: None, hints: hints2(Hint::EndTurn, Hint::ProposeTrade) },
                TurnPhase::JailDecision => PanelBody::Actions { rent_due: None, hints: hints2(Hint::PayFine, Hint::RollForDoubles) },
                TurnPhase::PayingRent { amount, to_player: _ } => PanelBody::Actions { rent_due: Some(*amount), hints: hints1(Hint::ConfirmRent) },
                _ => PanelBody::EndingTurn,
            }
        },
    };
    ActionPanel { my_turn, current_name: current.name.clone(), rolled, body }
}

/// The message a hint's key sends, if it sends one ([T] opens the trade
/// screen instead).
pub open spec fn hint_request(h: Hint) -> Option<Request> {
    match h {
        Hint::Roll => Some(Request::RollDice),
        Hint::Buy { .. } => Some(Request::BuyProperty),
        Hint::Decline => Some(Request::DeclineProperty),
        Hint::EndTurn => Some(Request::EndTurn),
        Hint::ProposeTrade => None,
        Hint::PayFine => Some(Request::PayJailFine),
        Hint::RollForDoubles => Some(Request::RollForJail),
        Hint::ConfirmRent => Some(Request::PayRent),
    }
}

/// A frame in which only the key of hint `h` is pressed.
pub open spec fn hint_press(h: Hint) -> FrameInput {
    FrameInput {
        typed: None,
        toggle_cards: false,
        backspace: false,
        enter: false,
        escape: false,
        tab: false,
        left: false,
        right: false,
        space: h is Roll,
        key_b: h is Buy,
        key_d: h is Decline,
        key_e: h is EndTurn || h is ConfirmRent,
        key_m: false,
        key_n: false,
        key_p: h is PayFine,
        key_r: h is RollForDoubles,
        key_t: h is ProposeTrade,
        key_u: false,
        key_y: false,
        panel_card: None,
        offer_slot: None,
        request_slot: None,
    }
}

/// The panel's hints tell the truth: on one's own turn, with no card
/// selected, pressing a hint's key sends exactly the message it names.
pub proof fn law_hints_match_keys(s: GameView, my_id: u8, bid: Seq<char>, k: int)
    requires
        panel_readable(s),
        panel_body_spec(s, my_id, bid) matches PanelBodyView::Actions { hints, .. }
            && 0 <= k < hints.len() && hint_request(hints[k]) is Some,
    ensures
        turn_keys(s.turn_phase, None, hint_press(panel_body_spec(s, my_id, bid)->hints[k]))
            == seq![hint_request(panel_body_spec(s, my_id, bid)->hints[k]).unwrap()],
{
}


// ---------------------------------------------------------------- the hover tooltip

/// The colour role of a tooltip line.
#[derive(Debug, Clone, Copy, PartialEq, Eq, Structural)]
pub enum Tone {
    /// The colour of a street's group
    Group(ColorGroup),
    Text,
    Subtext,
    Money,
    Debt,
    /// The colour of the player with this id
    Owner(u8),
    /// The colour of houses on a street
    Houses,
    /// The colour of a hotel
    Hotel,
}

/// Tooltip lines as texts with their tones.
pub open spec fn line_texts(v: Seq<(String, Tone)>) -> Seq<(Seq<char>, Tone)> {
    v.map_values(|l: (String, Tone)| (l.0@, l.1))
}

/// `prefix`, the amount in decimal digits, then `suffix`.
pub open spec fn amount_line(prefix: Seq<char>, amount: u32, suffix: Seq<char>) -> Seq<char> {
    prefix + decimal_text(amount as nat) + suffix
}

/// `format!("{}{}{}", prefix, amount, suffix)`.
///
/// Trusted: `{}` writes the amount in decimal digits and the texts unchanged.
#[verifier::external_body]
fn amount_text(prefix: &str, amount: u32, suffix: &str) -> (s: String)
    ensures
        s@ == amount_line(prefix@, amount, suffix@),
{
    format!("{}{}{}", prefix, amount, suffix)
}

fn push_line(lines: &mut Vec<(String, Tone)>, text: String, tone: Tone)
    ensures
        line_texts(final(lines)@) == line_texts(old(lines)@).push((text@, tone)),
{
    let ghost t = text@;
    lines.push((text, tone));
    proof { assert(line_texts(lines@) =~= line_texts(old(lines)@).push((t, tone))); }
}

fn push_text(lines: &mut Vec<(String, Tone)>, text: &str, tone: Tone)
    ensures
        line_texts(final(lines)@) == line_texts(old(lines)@).push((text@, tone)),
{
    push_line(lines, String::from_str(text), tone);
}

fn push_amount(lines: &mut Vec<(String, Tone)>, prefix: &str, amount: u32, suffix: &str, tone: Tone)
    ensures
        line_texts(final(lines)@) == line_texts(old(lines)@).push((amount_line(prefix@, amount, suffix@), tone)),
{
    push_line(lines, amount_text(prefix, amount, suffix), tone);
}

/// The separator line.
pub open spec fn rule_line() -> (Seq<char>, Tone) {
    ("─────────────"@, Tone::Subtext)
}

/// The name of the first player with id `id`, "Unknown" if there is none.
pub open spec fn owner_name(s: GameView, id: u8) -> Seq<char> {
    match find_id(s.players, id) {
        Some(k) => s.players[k].name,
        None => "Unknown"@,
    }
}

/// The last line of a tile that can be owned: mortgaged, its owner, or unowned.
pub open spec fn owner_line(s: GameView, owner: Option<u8>, mortgaged: bool) -> (Seq<char>, Tone) {
    if mortgaged {
        ("MORTGAGED"@, Tone::Debt)
    } else {
        match owner {
            Some(o) => ("Owner: "@ + owner_name(s, o), Tone::Owner(o)),
            None => ("Unowned"@, Tone::Subtext),
        }
    }
}

/// The buildings line of a street, if it has any.
pub open spec fn with_buildings(lines: Seq<(Seq<char>, Tone)>, houses: u8) -> Seq<(Seq<char>, Tone)> {
    if 0 < houses < 5 {
        lines.push((amount_line("Houses: "@, houses as u32, ""@), Tone::Houses))
    } else if houses == 5 {
        lines.push(("Hotel"@, Tone::Hotel))
    } else {
        lines
    }
}

/// The tooltip of tile `t`: for a tile that can be owned, its name, price,
/// rents and who owns it; for the others, what landing there does.
pub open spec fn tooltip_spec(s: GameView, t: int) -> Seq<(Seq<char>, Tone)> {
    match s.tiles[t] {
        Tile::Property(p) => with_buildings(seq![
            (p.name@, Tone::Group(p.color_group)),
            (amount_line("Price: $"@, p.price, ""@), Tone::Text),
            (amount_line("Build: $"@, p.building_cost, " each"@), Tone::Subtext),
            rule_line(),
            (amount_line("Rent:       $"@, p.rent[0], ""@), Tone::Text),
            (amount_line("1 house:    $"@, p.rent[1], ""@), Tone::Text),
            (amount_line("2 houses:   $"@, p.rent[2], ""@), Tone::Text),
            (amount_line("3 houses:   $"@, p.rent[3], ""@), Tone::Text),
            (amount_line("4 houses:   $"@, p.rent[4], ""@), Tone::Text),
            (amount_line("Hotel:      $"@, p.rent[5], ""@), Tone::Text),
            rule_line(),
        ], p.houses).push(owner_line(s, p.owner, p.mortgaged)),
        Tile::Railroad(r) => seq![
            (r.name@, Tone::Money),
            (amount_line("Price: $"@, r.price, ""@), Tone::Text),
            rule_line(),
            ("1 railroad:  $25"@, Tone::Text),
            ("2 railroads: $50"@, Tone::Text),
            ("3 railroads: $100"@, Tone::Text),
            ("4 railroads: $200"@, Tone::Text),
            rule_line(),
            owner_line(s, r.owner, r.mortgaged),
        ],
        Tile::Utility(u) => seq![
            (u.name@, Tone::Money),
            (amount_line("Price: $"@, u.price, ""@), Tone::Text),
            rule_line(),
            ("1 utility:   4x dice roll"@, Tone::Text),
            ("2 utilities: 10x dice roll"@, Tone::Text),
            rule_line(),
            owner_line(s, u.owner, u.mortgaged),
        ],
        Tile::Tax(x) => seq![
            (x.name@, Tone::Debt),
            (amount_line("Pay: $"@, x.amount, ""@), Tone::Text),
        ],
        Tile::Go => seq![
            ("GO"@, Tone::Money),
            ("Collect $200 salary"@, Tone::Text),
            ("when passing or landing"@, Tone::Subtext),
        ],
        Tile::Jail => seq![
            ("JAIL"@, Tone::Text),
            ("Just visiting — no effect"@, Tone::Subtext),
            ("Pay $50 or roll doubles"@, Tone::Subtext),
            ("to escape"@, Tone::Subtext),
        ],
        Tile::FreeParking => seq![
            ("FREE PARKING"@, Tone::Text),
            ("No effect in standard rules"@, Tone::Subtext),
        ],
        Tile::GoToJail => seq![
            ("GO TO JAIL"@, Tone::Debt),
            ("Go directly to jail"@, Tone::Text),
            ("Do not pass Go"@, Tone::Subtext),
            ("Do not collect $200"@, Tone::Subtext),
        ],
        Tile::CommunityChest => seq![
            ("COMMUNITY CHEST"@, Tone::Money),
            ("Draw a card and follow"@, Tone::Text),
            ("its instructions"@, Tone::Subtext),
        ],
        Tile::Chance => seq![
            ("CHANCE"@, Tone::Money),
            ("Draw a card and follow"@, Tone::Text),
            ("its instructions"@, Tone::Subtext),
        ],
    }
}

fn push_owner(lines: &mut Vec<(String, Tone)>, state: &GameState, owner: Option<u8>, mortgaged: bool)
    ensures
        line_texts(final(lines)@) == line_texts(old(lines)@).push(owner_line(state@, owner, mortgaged)),
{
    if mortgaged {
        push_text(lines, "MORTGAGED", Tone::Debt);
    } else {
        match owner {
            Some(o) => {
                let mut text = String::from_str("Owner: ");
                proof { lemma_find_id_found(state@.players, o); }
                match find_player_index(&state.players, o) {
                    Some(k) => text.append(state.players[k].name.as_str()),
                    None => text.append("Unknown"),
                }
                push_line(lines, text, Tone::Owner(o));
            },
            None => push_text(lines, "Unowned", Tone::Subtext),
        }
    }
}

/// The tooltip of tile `tile_index`, line by line with each line's tone.
pub fn tooltip_lines(state: &GameState, tile_index: usize) -> (lines: Vec<(String, Tone)>)
    requires
        tile_index < state@.tiles.len(),
    ensures
        line_texts(lines@) == tooltip_spec(state@, tile_index as int),
{
    let mut lines: Vec<(String, Tone)> = Vec::new();
    proof { assert(line_texts(lines@) =~= Seq::<(Seq<char>, Tone)>::empty()); }
    match &state.board.tiles[tile_index] {
        Tile::Property(p) => {
            push_line(&mut lines, p.name.clone(), Tone::Group(p.color_group));
            push_amount(&mut lines, "Price: $", p.price, "", Tone::Text);
            push_amount(&mut lines, "Build: $", p.building_cost, " each", Tone::Subtext);
            push_text(&mut lines, "─────────────", Tone::Subtext);
            push_amount(&mut lines, "Rent:       $", p.rent[0], "", Tone::Text);
            push_amount(&mut lines, "1 house:    $", p.rent[1], "", Tone::Text);
            push_amount(&mut lines, "2 houses:   $", p.rent[2], "", Tone::Text);
            push_amount(&mut lines, "3 houses:   $", p.rent[3], "", Tone::Text);
            push_amount(&mut lines, "4 houses:   $", p.rent[4], "", Tone::Text);
            push_amount(&mut lines, "Hotel:      $", p.rent[5], "", Tone::Text);
            push_text(&mut lines, "─────────────", Tone::Subtext);
            if p.houses > 0 && p.houses < 5 {
                push_amount(&mut lines, "Houses: ", p.houses as u32, "", Tone::Houses);
            } else if p.houses == 5 {
                push_text(&mut lines, "Hotel", Tone::Hotel);
            }
            push_owner(&mut lines, state, p.owner, p.mortgaged);
        },
        Tile::Railroad(r) => {
            push_line(&mut lines, r.name.clone(), Tone::Money);
            push_amount(&mut lines, "Price: $", r.price, "", Tone::Text);
            push_text(&mut lines, "─────────────", Tone::Subtext);
            push_text(&mut lines, "1 railroad:  $25", Tone::Text);
            push_text(&mut lines, "2 railroads: $50", Tone::Text);
            push_text(&mut lines, "3 railroads: $100", Tone::Text);
            push_text(&mut lines, "4 railroads: $200", Tone::Text);
            push_text(&mut lines, "─────────────", Tone::Subtext);
            push_owner(&mut lines, state, r.owner, r.mortgaged);
        },
        Tile::Utility(u) => {
            push_line(&mut lines, u.name.clone(), Tone::Money);
            push_amount(&mut lines, "Price: $", u.price, "", Tone::Text);
            push_text(&mut lines, "─────────────", Tone::Subtext);
            push_text(&mut lines, "1 utility:   4x dice roll", Tone::Text);
            push_text(&mut lines, "2 utilities: 10x dice roll", Tone::Text);
            push_text(&mut lines, "─────────────", Tone::Subtext);
            push_owner(&mut lines, state, u.owner, u.mortgaged);
        },
        Tile::Tax(x) => {
            push_line(&mut lines, x.name.clone(), Tone::Debt);
            push_amount(&mut lines, "Pay: $", x.amount, "", Tone::Text);
        },
        Tile::Go => {
            push_text(&mut lines, "GO", Tone::Money);
            push_text(&mut lines, "Collect $200 salary", Tone::Text);
            push_text(&mut lines, "when passing or landing", Tone::Subtext);
        },
        Tile::Jail => {
            push_text(&mut lines, "JAIL", Tone::Text);
            push_text(&mut lines, "Just visiting — no effect", Tone::Subtext);
            push_text(&mut lines, "Pay $50 or roll doubles", Tone::Subtext);
            push_text(&mut lines, "to escape", Tone::Subtext);
        },
        Tile::FreeParking => {
            push_text(&mut lines, "FREE PARKING", Tone::Text);
            push_text(&mut lines, "No effect in standard rules", Tone::Subtext);
        },
        Tile::GoToJail => {
            push_text(&mut lines, "GO TO JAIL", Tone::Debt);
            push_text(&mut lines, "Go directly to jail", Tone::Text);
            push_text(&mut lines, "Do not pass Go", Tone::Subtext);
            push_text(&mut lines, "Do not collect $200", Tone::Subtext);
        },
        Tile::CommunityChest => {
            push_text(&mut lines, "COMMUNITY CHEST", Tone::Money);
            push_text(&mut lines, "Draw a card and follow", Tone::Text);
            push_text(&mut lines, "its instructions", Tone::Subtext);
        },
        Tile::Chance => {
            push_text(&mut lines, "CHANCE", Tone::Money);
            push_text(&mut lines, "Draw a card and follow", Tone::Text);
            push_text(&mut lines, "its instructions", Tone::Subtext);
        },
    }
    lines
}

} // verus!
