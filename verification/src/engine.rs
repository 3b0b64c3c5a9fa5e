use vstd::prelude::*;
use vstd::string::StringExecFns;
use crate::bankruptcy::{declare_bankrupt, after_bankruptcy, bankruptcy_outcome, bankruptcy_settleable, BankruptcyResult};
use crate::board::{Board, Tile};
use crate::buildings::{
    build_house, sell_house, mortgage_property, unmortgage_property, build_outcome, after_build,
    sell_outcome, after_sell, sell_in_range, mortgage_outcome, unmortgage_outcome, BuildResult, MortgageResult,
};
use crate::buying::{
    buy_property, decline_purchase, place_bid, finalize_auction, buy_outcome, after_buy, bid_accepted,
    after_auction, auction_settleable, BuyResult,
};
use crate::bankruptcy::copy_indices;
use crate::dice::DiceRoll;
use crate::jail::{pay_jail_fine, use_jail_card, resolve_jail_roll, released, after_jail_roll, jail_roll_in_range};
use crate::lobby::{Lobby, LobbyView, LobbyPlayer, LobbyState, opening_game};
use crate::movement::{advance_player, advance_result, after_advance, advance_in_range, MoveResult};
use crate::network::{ServerMessage, ClientMessage, Note};
use crate::player::{PlayerView, Token};
use crate::rent::{calculate_rent, rent_due, rent_computable};
use crate::state::{GameState, GameView, TurnPhase, find_id, find_player_index, lemma_find_id_found};
use crate::text::decimal_text;
use crate::trading::{execute_trade, TradeOffer, TradeResult, trade_outcome, after_trade, trade_in_range};

verus! {

/// Who a server message goes to.
#[derive(Debug, Clone, Copy, PartialEq, Eq, Structural)]
pub enum Recipient {
    /// Every player in the lobby
    Everyone,
    /// Only the player with this id
    Only(u8),
    /// Every player but the one with this id
    AllBut(u8),
}

/// A message to send, with its recipients.
#[derive(Debug, Clone)]
pub struct Outgoing {
    pub to: Recipient,
    pub msg: ServerMessage,
}

impl View for Outgoing {
    type V = (Recipient, Note);

    open spec fn view(&self) -> (Recipient, Note) {
        (self.to, self.msg@)
    }
}

/// What handling a client message asks of the server next.
#[derive(Debug)]
pub enum Step {
    /// Send these messages; `joined` is the id the sender now plays as, if it just joined.
    Done { joined: Option<u8>, outbox: Vec<Outgoing> },
    /// The host may start the game: load the board, then call `begin_game`.
    LoadBoard,
}

/// A step as a mathematical value.
pub enum StepView {
    Done { joined: Option<u8>, notes: Seq<(Recipient, Note)> },
    LoadBoard,
}

impl View for Step {
    type V = StepView;

    open spec fn view(&self) -> StepView {
        match self {
            Step::Done { joined, outbox } => StepView::Done {
                joined: *joined,
                notes: outbox@.map_values(|o: Outgoing| o@),
            },
            Step::LoadBoard => StepView::LoadBoard,
        }
    }
}

/// Why the server refused a client message.
#[derive(Debug, Clone, Copy, PartialEq, Eq, Structural)]
pub enum EngineError {
    /// The lobby is full or the game already started
    LobbyUnavailable,
    /// The sender has not joined
    NotJoined,
    /// Only the host can start the game
    NotHost,
    /// At least two players are needed to start
    TooFewPlayers,
    /// The game has not started
    GameNotStarted,
    /// It is another player's turn
    NotYourTurn,
    /// Dice can only be rolled at the start of a turn
    NotRollPhase,
    /// No purchase decision is pending
    NotBuyPhase,
    /// Only the host can end an auction early
    NotAuctionHost,
    /// No rent is due
    NotRentPhase,
    /// The bid is too low or the bidder cannot pay it
    BidRejected,
    /// No trade has been proposed
    NoPendingTrade,
    /// Only the player a trade was proposed to can accept it
    NotTradeTarget,
}

/// Whether the player with id `id` gets a message addressed to `to`.
pub open spec fn receives(to: Recipient, id: u8) -> bool {
    match to {
        Recipient::Everyone => true,
        Recipient::Only(i) => id == i,
        Recipient::AllBut(i) => id != i,
    }
}

/// The ids of the lobby's players that get a message addressed to `to`, in joining order.
pub open spec fn recipients(ps: Seq<LobbyPlayer>, to: Recipient) -> Seq<u8>
    decreases ps.len(),
{
    if ps.len() == 0 {
        Seq::empty()
    } else {
        let r = recipients(ps.drop_last(), to);
        if receives(to, ps.last().id) { r.push(ps.last().id) } else { r }
    }
}

/// The players of the lobby that get a message addressed to `to`.
pub fn recipient_ids(lobby: &Lobby, to: Recipient) -> (ids: Vec<u8>)
    ensures
        ids@ == recipients(lobby@.players, to),
{
    let ghost ps = lobby@.players;
    let mut ids: Vec<u8> = Vec::new();
    let mut i: usize = 0;
    while i < lobby.players.len()
        invariant
            ps == lobby@.players,
            i <= ps.len(),
            ids@ == recipients(ps.take(i as int), to),
        decreases ps.len() - i,
    {
        proof {
            assert(ps.take(i + 1).drop_last() =~= ps.take(i as int));
            assert(ps.take(i + 1).last() == ps[i as int]);
        }
        let id = lobby.players[i].id;
        let gets = match to {
            Recipient::Everyone => true,
            Recipient::Only(k) => id == k,
            Recipient::AllBut(k) => id != k,
        };
        if gets {
            ids.push(id);
        }
        i += 1;
    }
    proof { assert(ps.take(ps.len() as int) =~= ps); }
    ids
}

/// What a refused sender is told: a refused join is answered with
/// `JoinRejected`, any other refusal with `ActionRejected`, each with its reason.
pub open spec fn refusal_note(e: EngineError) -> Note {
    match e {
        EngineError::LobbyUnavailable => Note::JoinRejected { reason: reason_text(e) },
        _ => Note::ActionRejected { reason: reason_text(e) },
    }
}

/// The message that tells a refused sender why.
pub fn refusal(e: EngineError) -> (m: ServerMessage)
    ensures
        m@ == refusal_note(e),
{
    let reason = String::from_str(e.reason());
    match e {
        EngineError::LobbyUnavailable => ServerMessage::JoinRejected { reason },
        _ => ServerMessage::ActionRejected { reason },
    }
}

/// The reason a refused player is given.
pub open spec fn reason_text(e: EngineError) -> Seq<char> {
    match e {
        EngineError::LobbyUnavailable => "Lobby full or game already started"@,
        EngineError::NotJoined => "Not joined"@,
        EngineError::NotHost => "Only the host can start the game"@,
        EngineError::TooFewPlayers => "Need at least 2 players to start"@,
        EngineError::GameNotStarted => "Game not started"@,
        EngineError::NotYourTurn => "Not your turn"@,
        EngineError::NotRollPhase => "Not in roll phase"@,
        EngineError::NotBuyPhase => "Not in buy phase"@,
        EngineError::NotAuctionHost => "Only the host can end the auction"@,
        EngineError::NotRentPhase => "Not in rent phase"@,
        EngineError::BidRejected => "Bid rejected — too low or insufficient funds"@,
        EngineError::NoPendingTrade => "No pending trade"@,
        EngineError::NotTradeTarget => "The trade was not proposed to you"@,
    }
}

impl EngineError {
    /// The reason a refused player is given.
    pub fn reason(&self) -> (s: &'static str)
        ensures
            s@ == reason_text(*self),
    {
        match self {
            EngineError::LobbyUnavailable => "Lobby full or game already started",
            EngineError::NotJoined => "Not joined",
            EngineError::NotHost => "Only the host can start the game",
            EngineError::TooFewPlayers => "Need at least 2 players to start",
            EngineError::GameNotStarted => "Game not started",
            EngineError::NotYourTurn => "Not your turn",
            EngineError::NotRollPhase => "Not in roll phase",
            EngineError::NotBuyPhase => "Not in buy phase",
            EngineError::NotAuctionHost => "Only the host can end the auction",
            EngineError::NotRentPhase => "Not in rent phase",
            EngineError::BidRejected => "Bid rejected — too low or insufficient funds",
            EngineError::NoPendingTrade => "No pending trade",
            EngineError::NotTradeTarget => "The trade was not proposed to you",
        }
    }
}

/// What handling a message answers, and the lobby afterwards.
pub struct EngineOutcome {
    pub result: Result<StepView, EngineError>,
    pub after: LobbyView,
}

/// How `{:?}` writes a recorded roll, such as `Some((3, 4))`.
pub uninterp spec fn roll_debug_text(roll: Option<(u8, u8)>) -> Seq<char>;

/// The text of the event logged when a player rolls: their name and the dice.
pub open spec fn roll_log_text(name: Seq<char>, roll: Option<(u8, u8)>) -> Seq<char> {
    name + " rolled "@ + roll_debug_text(roll)
}

/// The text of the event logged when rent is paid: the payer's name and the amount.
pub open spec fn rent_log_text(name: Seq<char>, amount: u32) -> Seq<char> {
    name + " paid $"@ + decimal_text(amount as nat) + " in rent"@
}

/// The roll event text, written by `std::format!` as "{name} rolled {roll:?}".
///
/// Trusted: `{}` writes the name unchanged; how `{:?}` writes an
/// `Option<(u8, u8)>` is left to `roll_debug_text`, since std gives no
/// stable form for derived `Debug` output.
#[verifier::external_body]
fn roll_log(name: &String, roll: Option<(u8, u8)>) -> (s: String)
    ensures
        s@ == name@ + " rolled "@ + roll_debug_text(roll),
{
    format!("{} rolled {:?}", name, roll)
}

/// The rent event text, written by `std::format!` as "{name} paid ${amount} in rent".
///
/// Trusted: `{}` writes the name unchanged and the amount in decimal digits.
#[verifier::external_body]
fn rent_log(name: &String, amount: u32) -> (s: String)
    ensures
        s@ == name@ + " paid $"@ + decimal_text(amount as nat) + " in rent"@,
{
    format!("{} paid ${} in rent", name, amount)
}

pub open spec fn refuse(l: LobbyView, e: EngineError) -> EngineOutcome {
    EngineOutcome { result: Err(e), after: l }
}

pub open spec fn sent(l: LobbyView, notes: Seq<(Recipient, Note)>) -> EngineOutcome {
    EngineOutcome { result: Ok(StepView::Done { joined: None, notes }), after: l }
}

/// The game becomes `g` and everyone gets the new state.
pub open spec fn broadcast_state(l: LobbyView, g: GameView) -> EngineOutcome {
    sent(LobbyView { game: Some(g), ..l }, seq![(Recipient::Everyone, Note::StateUpdate { state: g })])
}

/// The checks before a turn action: the sender joined, the game started,
/// and it is the sender's turn.
pub open spec fn turn_gate(l: LobbyView, pid: Option<u8>) -> Option<EngineError> {
    match pid {
        None => Some(EngineError::NotJoined),
        Some(id) => match l.game {
            None => Some(EngineError::GameNotStarted),
            Some(g) => if g.current().id != id { Some(EngineError::NotYourTurn) } else { None },
        },
    }
}

/// The sender and the game exist and the current seat points at a player.
pub open spec fn seated(l: LobbyView, pid: Option<u8>) -> bool {
    pid is Some && l.game is Some ==> l.game.unwrap().has_current()
}

/// Applies `f` to the game when the turn gate lets the sender through.
pub open spec fn turn_action(l: LobbyView, pid: Option<u8>, g2: GameView) -> EngineOutcome {
    match turn_gate(l, pid) {
        Some(e) => refuse(l, e),
        None => broadcast_state(l, g2),
    }
}

pub open spec fn outcome_matches(o: EngineOutcome, r: Result<Step, EngineError>, after: LobbyView) -> bool {
    &&& after == o.after
    &&& match r {
        Ok(s) => o.result == Ok::<StepView, EngineError>(s@),
        Err(e) => o.result == Err::<StepView, EngineError>(e),
    }
}

/// The roster as players see it: id, name and token, in joining order.
pub open spec fn roster(ps: Seq<LobbyPlayer>) -> Seq<(u8, Seq<char>, Token)> {
    ps.map_values(|p: LobbyPlayer| (p.id, p.name@, p.token))
}

// ----- joining and starting -----

pub open spec fn on_join(l: LobbyView, name: String, token: Token) -> EngineOutcome {
    if l.is_full() || l.state == LobbyState::InGame {
        refuse(l, EngineError::LobbyUnavailable)
    } else {
        let id = l.next_id;
        let l2 = LobbyView {
            players: l.players.push(LobbyPlayer { id, name, token, ready: false }),
            next_id: (l.next_id + 1) as u8,
            host_id: if l.host_id is None { Some(id) } else { l.host_id },
            ..l
        };
        EngineOutcome {
            result: Ok(StepView::Done {
                joined: Some(id),
                notes: seq![
                    (Recipient::Only(id), Note::JoinAck { assigned_id: id }),
                    (Recipient::Only(id), Note::LobbyState { players: roster(l2.players) }),
                    (Recipient::AllBut(id), Note::PlayerJoined { id, name: name@, token }),
                ],
            }),
            after: l2,
        }
    }
}

pub open spec fn on_start(l: LobbyView, pid: Option<u8>) -> EngineOutcome {
    match pid {
        None => refuse(l, EngineError::NotJoined),
        Some(id) => if l.host_id != Some(id) {
            refuse(l, EngineError::NotHost)
        } else if l.players.len() < 2 {
            refuse(l, EngineError::TooFewPlayers)
        } else {
            EngineOutcome { result: Ok(StepView::LoadBoard), after: l }
        },
    }
}

// ----- rolling -----

/// The current player pays `amount` of tax, or all their cash if less.
pub open spec fn taxed(s: GameView, amount: u32) -> GameView {
    let p = s.current();
    s.with_player(s.current_player_index as int, p.with_money(if p.money >= amount { (p.money - amount) as u32 } else { 0 }))
}

/// The owner that rent is paid to (0 for a tile that cannot be owned).
pub open spec fn payee(t: Tile) -> u8 {
    match t.owner() {
        Some(o) => o,
        None => 0,
    }
}

/// The game after the current player rolled `roll`: they move, and the phase
/// says what is due next (a purchase decision, rent, jail, or nothing); tax
/// is taken at once, up to the player's cash.
pub open spec fn rolled(s: GameView, roll: DiceRoll, go_salary: u32) -> GameView {
    let s1 = after_advance(s, roll, go_salary);
    match advance_result(s, roll, go_salary) {
        MoveResult::LandedOnProperty { tile_index } => s1.with_phase(TurnPhase::BuyDecision { tile_index }),
        MoveResult::LandedOnOwnedProperty { tile_index, owner: _ } => s1.with_phase(TurnPhase::PayingRent {
            amount: rent_due(s1.tiles, tile_index as int, roll) as u32,
            to_player: payee(s1.tiles[tile_index as int]),
        }),
        MoveResult::SentToJail => s1.with_phase(TurnPhase::JailDecision),
        MoveResult::LandedOnTax { amount } => taxed(s1, amount).with_phase(TurnPhase::PostRoll),
        _ => s1.with_phase(TurnPhase::PostRoll),
    }
}

pub open spec fn on_roll(l: LobbyView, pid: Option<u8>, roll: DiceRoll) -> EngineOutcome {
    match turn_gate(l, pid) {
        Some(e) => refuse(l, e),
        None => {
            let s = l.game.unwrap();
            if s.turn_phase != TurnPhase::WaitingForRoll {
                refuse(l, EngineError::NotRollPhase)
            } else {
                let g = rolled(s, roll, l.ruleset.go_salary);
                sent(LobbyView { game: Some(g), ..l }, seq![
                    (Recipient::Everyone, Note::EventLog { message: roll_log_text(g.current().name, g.last_roll) }),
                    (Recipient::Everyone, Note::StateUpdate { state: g }),
                ])
            }
        },
    }
}

pub open spec fn roll_safe(l: LobbyView, pid: Option<u8>, roll: DiceRoll) -> bool {
    &&& seated(l, pid)
    &&& turn_gate(l, pid) is None && l.game.unwrap().turn_phase == TurnPhase::WaitingForRoll ==> {
        let s = l.game.unwrap();
        let go = l.ruleset.go_salary;
        &&& advance_in_range(s, roll, go)
        &&& advance_result(s, roll, go) matches MoveResult::LandedOnOwnedProperty { tile_index, owner: _ }
                ==> rent_computable(after_advance(s, roll, go).tiles, tile_index as int, roll)
    }
}

// ----- buying and auctions -----

pub open spec fn on_buy(l: LobbyView, pid: Option<u8>) -> EngineOutcome {
    match turn_gate(l, pid) {
        Some(e) => refuse(l, e),
        None => {
            let s = l.game.unwrap();
            match s.turn_phase {
                TurnPhase::BuyDecision { tile_index } => broadcast_state(l,
                    if buy_outcome(s, tile_index as int) == BuyResult::Purchased { after_buy(s, tile_index as int) } else { s }),
                _ => refuse(l, EngineError::NotBuyPhase),
            }
        },
    }
}

pub open spec fn on_decline(l: LobbyView, pid: Option<u8>) -> EngineOutcome {
    match turn_gate(l, pid) {
        Some(e) => refuse(l, e),
        None => {
            let s = l.game.unwrap();
            match s.turn_phase {
                TurnPhase::BuyDecision { tile_index } => broadcast_state(l,
                    if l.ruleset.auction_enabled {
                        s.with_phase(TurnPhase::Auction { tile_index, highest_bid: 0, highest_bidder: s.current().id })
                    } else {
                        s.with_phase(TurnPhase::PostRoll)
                    }),
                _ => refuse(l, EngineError::NotBuyPhase),
            }
        },
    }
}

pub open spec fn on_bid(l: LobbyView, pid: Option<u8>, amount: u32) -> EngineOutcome {
    match pid {
        None => refuse(l, EngineError::NotJoined),
        Some(id) => match l.game {
            None => refuse(l, EngineError::GameNotStarted),
            Some(s) => if !bid_accepted(s, id, amount) {
                refuse(l, EngineError::BidRejected)
            } else {
                broadcast_state(l, s.with_phase(TurnPhase::Auction {
                    tile_index: s.turn_phase->Auction_tile_index,
                    highest_bid: amount,
                    highest_bidder: id,
                }))
            },
        },
    }
}

/// The game after `id` passes on the auction: they are counted once among
/// the passers, and once every player still in the game has passed, the
/// auction is settled and the passers are forgotten.
pub open spec fn passed(s: GameView, id: u8) -> GameView {
    let passers = if s.auction_passers.contains(id) { s.auction_passers } else { s.auction_passers.push(id) };
    let s1 = GameView { auction_passers: passers, ..s };
    if passers.len() >= s.active().len() {
        GameView { auction_passers: Seq::empty(), ..after_auction(s1) }
    } else {
        s1
    }
}

pub open spec fn on_pass(l: LobbyView, pid: Option<u8>) -> EngineOutcome {
    match pid {
        None => refuse(l, EngineError::NotJoined),
        Some(id) => match l.game {
            None => refuse(l, EngineError::GameNotStarted),
            Some(s) => broadcast_state(l, passed(s, id)),
        },
    }
}

pub open spec fn pass_safe(l: LobbyView, pid: Option<u8>) -> bool {
    pid is Some && l.game is Some ==> {
        let s = l.game.unwrap();
        let id = pid.unwrap();
        let passers = if s.auction_passers.contains(id) { s.auction_passers } else { s.auction_passers.push(id) };
        passers.len() >= s.active().len() ==> auction_settleable(GameView { auction_passers: passers, ..s })
    }
}

/// Only the host ends an auction early; otherwise it ends once all pass.
pub open spec fn on_finalize(l: LobbyView, pid: Option<u8>) -> EngineOutcome {
    match pid {
        None => refuse(l, EngineError::NotJoined),
        Some(id) => match l.game {
            None => refuse(l, EngineError::GameNotStarted),
            Some(s) => if l.host_id != Some(id) {
                refuse(l, EngineError::NotAuctionHost)
            } else {
                broadcast_state(l, after_auction(s))
            },
        },
    }
}

// ----- rent -----

/// The game after the current player paid `amount` of rent to the first
/// player with id `to`: the payer gives up to their cash, the payee gets the
/// full amount, and the turn moves on.
pub open spec fn rent_paid(s: GameView, amount: u32, to: u8) -> GameView {
    let g1 = taxed(s, amount);
    let g2 = match find_id(g1.players, to) {
        Some(k) => g1.with_player(k, g1.players[k].with_money((g1.players[k].money + amount) as u32)),
        None => g1,
    };
    g2.with_phase(TurnPhase::PostRoll)
}

pub open spec fn on_pay_rent(l: LobbyView, pid: Option<u8>) -> EngineOutcome {
    match turn_gate(l, pid) {
        Some(e) => refuse(l, e),
        None => {
            let s = l.game.unwrap();
            match s.turn_phase {
                TurnPhase::PayingRent { amount, to_player } => {
                    let g = rent_paid(s, amount, to_player);
                    sent(LobbyView { game: Some(g), ..l }, seq![
                        (Recipient::Everyone, Note::EventLog { message: rent_log_text(g.current().name, amount) }),
                        (Recipient::Everyone, Note::StateUpdate { state: g }),
                    ])
                },
                _ => refuse(l, EngineError::NotRentPhase),
            }
        },
    }
}

pub open spec fn rent_safe(l: LobbyView, pid: Option<u8>) -> bool {
    &&& seated(l, pid)
    &&& turn_gate(l, pid) is None && l.game.unwrap().turn_phase is PayingRent ==> {
        let s = l.game.unwrap();
        let g1 = taxed(s, s.turn_phase->PayingRent_amount);
        find_id(g1.players, s.turn_phase->to_player) matches Some(k)
            ==> g1.players[k].money + s.turn_phase->PayingRent_amount <= u32::MAX
    }
}

// ----- jail -----

pub open spec fn fine_paid(s: GameView, fine: u32) -> GameView {
    if s.current().money < fine { s } else { released(s, (s.current().money - fine) as u32).with_phase(TurnPhase::WaitingForRoll) }
}

pub open spec fn card_used(s: GameView) -> GameView {
    if s.current().get_out_of_jail == 0 {
        s
    } else {
        s.with_player(s.current_player_index as int, PlayerView {
            get_out_of_jail: (s.current().get_out_of_jail - 1) as u8,
            in_jail: false,
            jail_turns: 0,
            ..s.current()
        }).with_phase(TurnPhase::WaitingForRoll)
    }
}

// ----- buildings -----

pub open spec fn built(s: GameView, t: usize) -> GameView {
    if build_outcome(s, t as int) == BuildResult::Built { after_build(s, t as int) } else { s }
}

pub open spec fn sold(s: GameView, t: usize) -> GameView {
    if sell_outcome(s, t as int) == BuildResult::Built { after_sell(s, t as int) } else { s }
}

pub open spec fn mortgaged(s: GameView, t: usize) -> GameView {
    match mortgage_outcome(s, t as int) {
        MortgageResult::Mortgaged { value } => s.with_player(
            s.current_player_index as int,
            s.current().with_money((s.current().money + value) as u32),
        ).with_tile(t as int, s.tiles[t as int].with_mortgaged(true)),
        _ => s,
    }
}

pub open spec fn unmortgaged(s: GameView, t: usize) -> GameView {
    match unmortgage_outcome(s, t as int) {
        MortgageResult::Unmortgaged { cost } => s.with_player(
            s.current_player_index as int,
            s.current().with_money((s.current().money - cost) as u32),
        ).with_tile(t as int, s.tiles[t as int].with_mortgaged(false)),
        _ => s,
    }
}

// ----- trading -----

pub open spec fn on_propose(
    l: LobbyView,
    pid: Option<u8>,
    to_player: u8,
    offered: Vec<usize>,
    offered_money: u32,
    requested: Vec<usize>,
    requested_money: u32,
) -> EngineOutcome {
    match pid {
        None => refuse(l, EngineError::NotJoined),
        Some(id) => sent(
            LobbyView {
                pending_trade: Some(TradeOffer {
                    from_player: id,
                    to_player,
                    offered_properties: offered,
                    offered_money,
                    requested_properties: requested,
                    requested_money,
                }),
                ..l
            },
            seq![(Recipient::Only(to_player), Note::TradeProposed {
                from_player: id,
                offered_properties: offered@,
                offered_money,
                requested_properties: requested@,
                requested_money,
            })],
        ),
    }
}

/// Only the player a trade was proposed to can accept it.
pub open spec fn on_accept(l: LobbyView, pid: Option<u8>) -> EngineOutcome {
    match pid {
        None => refuse(l, EngineError::NotJoined),
        Some(id) => match l.pending_trade {
            None => refuse(l, EngineError::NoPendingTrade),
            Some(offer) => if offer.to_player != id {
                refuse(l, EngineError::NotTradeTarget)
            } else {
                let l1 = LobbyView { pending_trade: None, ..l };
                match l.game {
                    None => refuse(l1, EngineError::GameNotStarted),
                    Some(s) => {
                        let g = if trade_outcome(s, offer) == TradeResult::Completed { after_trade(s, offer) } else { s };
                        sent(LobbyView { game: Some(g), ..l1 }, seq![
                            (Recipient::Everyone, Note::TradeAccepted),
                            (Recipient::Everyone, Note::StateUpdate { state: g }),
                        ])
                    },
                }
            },
        },
    }
}

// ----- end of turn and bankruptcy -----

pub open spec fn turn_ended(s: GameView) -> GameView {
    GameView {
        current_player_index: ((s.current_player_index + 1) % (s.players.len() as int)) as usize,
        turn_phase: TurnPhase::WaitingForRoll,
        turn_number: (s.turn_number + 1) as u32,
        last_roll: None,
        auction_passers: Seq::empty(),
        ..s
    }
}

/// The name of the first player with id `id`, empty if there is none.
pub open spec fn name_of(s: GameView, id: u8) -> Seq<char> {
    match find_id(s.players, id) {
        Some(k) => s.players[k].name,
        None => Seq::empty(),
    }
}

pub open spec fn on_bankruptcy(l: LobbyView, pid: Option<u8>) -> EngineOutcome {
    match pid {
        None => refuse(l, EngineError::NotJoined),
        Some(id) => match l.game {
            None => refuse(l, EngineError::GameNotStarted),
            Some(s) => {
                let r = bankruptcy_outcome(s, id, None);
                let g = if r is NotInsolvent { s } else { after_bankruptcy(s, id, None) };
                let update = (Recipient::Everyone, Note::StateUpdate { state: g });
                sent(LobbyView { game: Some(g), ..l }, match r {
                    BankruptcyResult::GameOver { winner } => seq![
                        (Recipient::Everyone, Note::GameOver { winner_id: winner, winner_name: name_of(g, winner) }),
                        update,
                    ],
                    _ => seq![update],
                })
            },
        },
    }
}

// ----- the whole engine -----

/// What the server does with message `msg` from the connection playing as
/// `pid` (none before joining), with `roll` as the dice for a roll.
pub open spec fn engine_step(l: LobbyView, pid: Option<u8>, msg: ClientMessage, roll: DiceRoll) -> EngineOutcome {
    let rules = l.ruleset;
    match msg {
        ClientMessage::Join { name, token } => on_join(l, name, token),
        ClientMessage::StartGame => on_start(l, pid),
        ClientMessage::RollDice => on_roll(l, pid, roll),
        ClientMessage::BuyProperty => on_buy(l, pid),
        ClientMessage::DeclineProperty => on_decline(l, pid),
        ClientMessage::PayRent => on_pay_rent(l, pid),
        ClientMessage::PlaceBid { amount } => on_bid(l, pid, amount),
        ClientMessage::PassBid => on_pass(l, pid),
        ClientMessage::FinalizeAuction => on_finalize(l, pid),
        ClientMessage::PayJailFine => turn_action(l, pid, fine_paid(l.game.unwrap(), rules.jail_fine)),
        ClientMessage::UseJailCard => turn_action(l, pid, card_used(l.game.unwrap())),
        ClientMessage::RollForJail => turn_action(l, pid,
            after_jail_roll(l.game.unwrap(), roll, rules.doubles_to_exit_jail, rules.jail_fine, rules.max_jail_turns, rules.go_salary)),
        ClientMessage::BuildHouse { tile_index } => turn_action(l, pid, built(l.game.unwrap(), tile_index)),
        ClientMessage::SellHouse { tile_index } => turn_action(l, pid, sold(l.game.unwrap(), tile_index)),
        ClientMessage::Mortgage { tile_index } => turn_action(l, pid, mortgaged(l.game.unwrap(), tile_index)),
        ClientMessage::Unmortgage { tile_index } => turn_action(l, pid, unmortgaged(l.game.unwrap(), tile_index)),
        ClientMessage::ProposeTrade { to_player, offered_properties, offered_money, requested_properties, requested_money } =>
            on_propose(l, pid, to_player, offered_properties, offered_money, requested_properties, requested_money),
        ClientMessage::AcceptTrade => on_accept(l, pid),
        ClientMessage::RejectTrade => sent(LobbyView { pending_trade: None, ..l }, seq![(Recipient::Everyone, Note::TradeRejected)]),
        ClientMessage::EndTurn => turn_action(l, pid, turn_ended(l.game.unwrap())),
        ClientMessage::Connect { addr: _ } => sent(l, Seq::empty()),
        ClientMessage::DeclareBankruptcy => on_bankruptcy(l, pid),
    }
}

/// Handling message `msg` meets no index out of bounds, no missing value and
/// no overflow.
pub open spec fn engine_safe(l: LobbyView, pid: Option<u8>, msg: ClientMessage, roll: DiceRoll) -> bool {
    let rules = l.ruleset;
    let through = turn_gate(l, pid) is None;
    let s = l.game.unwrap();
    match msg {
        ClientMessage::Join { name: _, token: _ } => !(l.is_full() || l.state == LobbyState::InGame) ==> l.next_id < u8::MAX,
        ClientMessage::RollDice => roll_safe(l, pid, roll),
        ClientMessage::BuyProperty => seated(l, pid) && (through && s.turn_phase is BuyDecision
            ==> s.turn_phase->BuyDecision_tile_index < s.tiles.len()),
        ClientMessage::DeclineProperty => seated(l, pid),
        ClientMessage::PayRent => rent_safe(l, pid),
        ClientMessage::PassBid => pass_safe(l, pid),
        ClientMessage::FinalizeAuction => l.game is Some ==> auction_settleable(s),
        ClientMessage::PayJailFine => seated(l, pid),
        ClientMessage::UseJailCard => seated(l, pid),
        ClientMessage::RollForJail => seated(l, pid)
            && (through ==> jail_roll_in_range(s, roll, rules.doubles_to_exit_jail, rules.jail_fine, rules.max_jail_turns, rules.go_salary)),
        ClientMessage::BuildHouse { tile_index } => seated(l, pid) && (through ==> {
            &&& tile_index < s.tiles.len()
            &&& build_outcome(s, tile_index as int) == BuildResult::Built
                && s.tiles[tile_index as int]->Property_0.houses >= 4 ==> s.houses_remaining + 4 <= u8::MAX
        }),
        ClientMessage::SellHouse { tile_index } => seated(l, pid) && (through ==> {
            &&& tile_index < s.tiles.len()
            &&& sell_in_range(s, tile_index as int)
        }),
        ClientMessage::Mortgage { tile_index } => seated(l, pid) && (through ==> {
            &&& tile_index < s.tiles.len()
            &&& mortgage_outcome(s, tile_index as int) is Mortgaged
                ==> s.current().money + s.tiles[tile_index as int].price() / 2 <= u32::MAX
        }),
        ClientMessage::Unmortgage { tile_index } => seated(l, pid) && (through ==> tile_index < s.tiles.len()),
        ClientMessage::AcceptTrade => l.pending_trade is Some && l.game is Some ==> trade_in_range(s, l.pending_trade.unwrap()),
        ClientMessage::EndTurn => seated(l, pid) && (through ==> s.turn_number < u32::MAX),
        ClientMessage::DeclareBankruptcy => pid is Some && l.game is Some ==> bankruptcy_settleable(s, pid.unwrap(), None),
        _ => true,
    }
}

fn state_update(g: &GameState) -> (o: Outgoing)
    ensures
        o@ == (Recipient::Everyone, Note::StateUpdate { state: g@ }),
{
    Outgoing { to: Recipient::Everyone, msg: ServerMessage::StateUpdate { state: g.snapshot() } }
}

fn done(outbox: Vec<Outgoing>) -> (r: Result<Step, EngineError>)
    ensures
        r == Ok::<Step, EngineError>(Step::Done { joined: None, outbox }),
{
    Ok(Step::Done { joined: None, outbox })
}

/// The id that passes the turn gate, or why it does not.
fn check_turn(lobby: &Lobby, pid: Option<u8>) -> (r: Result<u8, EngineError>)
    requires
        seated(lobby@, pid),
    ensures
        match turn_gate(lobby@, pid) {
            Some(e) => r == Err::<u8, EngineError>(e),
            None => r == Ok::<u8, EngineError>(pid.unwrap()),
        },
{
    let id = match pid {
        Some(i) => i,
        None => return Err(EngineError::NotJoined),
    };
    match &lobby.game {
        None => Err(EngineError::GameNotStarted),
        Some(g) => {
            if g.players[g.current_player_index].id != id {
                Err(EngineError::NotYourTurn)
            } else {
                Ok(id)
            }
        },
    }
}

/// Take the game out of the lobby to change it.
fn take_game(lobby: &mut Lobby) -> (g: GameState)
    requires
        old(lobby).game is Some,
    ensures
        g@ == old(lobby)@.game.unwrap(),
        final(lobby)@ == (LobbyView { game: None, ..old(lobby)@ }),
{
    lobby.game.take().unwrap()
}

fn join(lobby: &mut Lobby, name: String, token: Token) -> (r: Result<Step, EngineError>)
    requires
        engine_safe(old(lobby)@, None, ClientMessage::Join { name, token }, DiceRoll { die1: 1, die2: 1 }),
    ensures
        outcome_matches(on_join(old(lobby)@, name, token), r, final(lobby)@),
{
    let ghost l0 = lobby@;
    let joined_name = name.clone();
    let id = match lobby.add_player(name, token) {
        Some(i) => i,
        None => return Err(EngineError::LobbyUnavailable),
    };
    // the roster goes to the new player, who is on it
    let mut players: Vec<(u8, String, Token)> = Vec::new();
    let mut i: usize = 0;
    while i < lobby.players.len()
        invariant
            i <= lobby@.players.len(),
            players@.len() == i,
            players@.map_values(|e: (u8, String, Token)| crate::network::roster_entry(e))
                == roster(lobby@.players.take(i as int)),
        decreases lobby@.players.len() - i,
    {
        let p = &lobby.players[i];
        let ghost before = players@;
        let entry = (p.id, p.name.clone(), p.token);
        players.push(entry);
        proof {
            let f = |e: (u8, String, Token)| crate::network::roster_entry(e);
            let want = roster(lobby@.players.take(i + 1));
            assert(before.map_values(f) == roster(lobby@.players.take(i as int)));
            assert forall|j: int| 0 <= j < i + 1 implies players@.map_values(f)[j] == want[j] by {
                if j < i {
                    assert(players@[j] == before[j]);
                    assert(before.map_values(f)[j] == roster(lobby@.players.take(i as int))[j]);
                } else {
                    assert(players@[j] == entry);
                }
            }
            assert(players@.map_values(|e: (u8, String, Token)| crate::network::roster_entry(e))
                =~= roster(lobby@.players.take(i + 1)));
        }
        i += 1;
    }
    proof { assert(lobby@.players.take(lobby@.players.len() as int) =~= lobby@.players); }
    let outbox = vec![
        Outgoing { to: Recipient::Only(id), msg: ServerMessage::JoinAck { assigned_id: id } },
        Outgoing { to: Recipient::Only(id), msg: ServerMessage::LobbyState { players } },
        Outgoing { to: Recipient::AllBut(id), msg: ServerMessage::PlayerJoined { id, name: joined_name, token } },
    ];
    proof {
        let o = on_join(l0, name, token);
        assert(outbox@.map_values(|o: Outgoing| o@) =~= o.result->Ok_0->notes);
    }
    Ok(Step::Done { joined: Some(id), outbox })
}

fn start(lobby: &Lobby, pid: Option<u8>) -> (r: Result<Step, EngineError>)
    ensures
        outcome_matches(on_start(lobby@, pid), r, lobby@),
{
    let id = match pid {
        Some(i) => i,
        None => return Err(EngineError::NotJoined),
    };
    if lobby.host_id != Some(id) {
        return Err(EngineError::NotHost);
    }
    if lobby.players.len() < 2 {
        return Err(EngineError::TooFewPlayers);
    }
    Ok(Step::LoadBoard)
}

/// Start the game on the loaded board, once `StartGame` asked for it: the
/// lobby closes and everyone learns that the game started and its state.
pub fn begin_game(lobby: &mut Lobby, board: Board) -> (outbox: Vec<Outgoing>)
    ensures
        final(lobby)@ == (LobbyView {
            game: Some(opening_game(old(lobby)@, board.tiles@)),
            state: LobbyState::InGame,
            ..old(lobby)@
        }),
        outbox@.map_values(|o: Outgoing| o@) == seq![
            (Recipient::Everyone, Note::GameStarted),
            (Recipient::Everyone, Note::StateUpdate { state: opening_game(old(lobby)@, board.tiles@) }),
        ],
{
    lobby.start_game(board);
    let update = match &lobby.game {
        Some(g) => state_update(g),
        None => { assert(false); Outgoing { to: Recipient::Everyone, msg: ServerMessage::GameStarted } },
    };
    let outbox = vec![Outgoing { to: Recipient::Everyone, msg: ServerMessage::GameStarted }, update];
    proof {
        assert(outbox@.map_values(|o: Outgoing| o@) =~= seq![
            (Recipient::Everyone, Note::GameStarted),
            (Recipient::Everyone, Note::StateUpdate { state: opening_game(old(lobby)@, board.tiles@) }),
        ]);
    }
    outbox
}


/// Put the changed game back and tell everyone its state.
fn finish(lobby: &mut Lobby, g: GameState) -> (r: Result<Step, EngineError>)
    ensures
        final(lobby)@ == (LobbyView { game: Some(g@), ..old(lobby)@ }),
        r matches Ok(st) && st@ == (StepView::Done {
            joined: None,
            notes: seq![(Recipient::Everyone, Note::StateUpdate { state: g@ })],
        }),
{
    let u = state_update(&g);
    lobby.game = Some(g);
    let outbox = vec![u];
    proof {
        assert(outbox@.map_values(|o: Outgoing| o@) =~= seq![(Recipient::Everyone, Note::StateUpdate { state: g@ })]);
    }
    done(outbox)
}

/// Put the changed game back and send a log line, then the state, to everyone.
pub fn finish_with_log(lobby: &mut Lobby, g: GameState, log: String) -> (r: Result<Step, EngineError>)
    ensures
        final(lobby)@ == (LobbyView { game: Some(g@), ..old(lobby)@ }),
        r matches Ok(st) && st@ == (StepView::Done {
            joined: None,
            notes: seq![
                (Recipient::Everyone, Note::EventLog { message: log@ }),
                (Recipient::Everyone, Note::StateUpdate { state: g@ }),
            ],
        }),
{
    let u = state_update(&g);
    lobby.game = Some(g);
    let outbox = vec![Outgoing { to: Recipient::Everyone, msg: ServerMessage::EventLog { message: log } }, u];
    proof {
        assert(outbox@.map_values(|o: Outgoing| o@) =~= seq![
            (Recipient::Everyone, Note::EventLog { message: log@ }),
            (Recipient::Everyone, Note::StateUpdate { state: g@ }),
        ]);
    }
    done(outbox)
}

fn roll_dice(lobby: &mut Lobby, pid: Option<u8>, roll: DiceRoll) -> (r: Result<Step, EngineError>)
    requires
        roll_safe(old(lobby)@, pid, roll),
    ensures
        outcome_matches(on_roll(old(lobby)@, pid, roll), r, final(lobby)@),
{
    let ghost l0 = lobby@;
    match check_turn(lobby, pid) {
        Ok(_) => {},
        Err(e) => return Err(e),
    }
    let waiting = match &lobby.game {
        Some(g) => g.turn_phase == TurnPhase::WaitingForRoll,
        None => false,
    };
    if !waiting {
        return Err(EngineError::NotRollPhase);
    }
    let go_salary = lobby.ruleset.go_salary;
    let mut g = take_game(lobby);
    let ghost s = g@;
    let result = advance_player(&mut g, &roll, go_salary);
    let ghost s1 = g@;
    proof {
        assert(s1.players.len() == s.players.len());
        assert(s1.current_player_index == s.current_player_index);
    }
    match result {
        MoveResult::LandedOnProperty { tile_index } => {
            g.turn_phase = TurnPhase::BuyDecision { tile_index };
        },
        MoveResult::LandedOnOwnedProperty { tile_index, owner: _ } => {
            proof {
                assert(s1.tiles == s.tiles);
            }
            let rent = calculate_rent(&g, tile_index, &roll);
            let owner = match &g.board.tiles[tile_index] {
                Tile::Property(p) => p.owner.unwrap(),
                Tile::Railroad(rr) => rr.owner.unwrap(),
                Tile::Utility(u) => u.owner.unwrap(),
                _ => 0,
            };
            g.turn_phase = TurnPhase::PayingRent { amount: rent, to_player: owner };
        },
        MoveResult::SentToJail => {
            g.turn_phase = TurnPhase::JailDecision;
        },
        MoveResult::LandedOnTax { amount } => {
            let ci = g.current_player_index;
            let money = g.players[ci].money;
            g.players[ci].money = if money >= amount { money - amount } else { 0 };
            g.turn_phase = TurnPhase::PostRoll;
            proof {
                assert(g@.players =~= taxed(s1, amount).players);
            }
        },
        _ => {
            g.turn_phase = TurnPhase::PostRoll;
        },
    }
    proof {
        assert(g@ =~= rolled(s, roll, go_salary));
    }
    let log = roll_log(&g.players[g.current_player_index].name, g.last_roll);
    finish_with_log(lobby, g, log)
}

fn buy(lobby: &mut Lobby, pid: Option<u8>) -> (r: Result<Step, EngineError>)
    requires
        engine_safe(old(lobby)@, pid, ClientMessage::BuyProperty, DiceRoll { die1: 1, die2: 1 }),
    ensures
        outcome_matches(on_buy(old(lobby)@, pid), r, final(lobby)@),
{
    match check_turn(lobby, pid) {
        Ok(_) => {},
        Err(e) => return Err(e),
    }
    let tile_index = match &lobby.game {
        Some(g) => match g.turn_phase {
            TurnPhase::BuyDecision { tile_index } => tile_index,
            _ => return Err(EngineError::NotBuyPhase),
        },
        None => return Err(EngineError::GameNotStarted),
    };
    let mut g = take_game(lobby);
    buy_property(&mut g, tile_index);
    finish(lobby, g)
}

fn decline(lobby: &mut Lobby, pid: Option<u8>) -> (r: Result<Step, EngineError>)
    requires
        seated(old(lobby)@, pid),
    ensures
        outcome_matches(on_decline(old(lobby)@, pid), r, final(lobby)@),
{
    match check_turn(lobby, pid) {
        Ok(_) => {},
        Err(e) => return Err(e),
    }
    let tile_index = match &lobby.game {
        Some(g) => match g.turn_phase {
            TurnPhase::BuyDecision { tile_index } => tile_index,
            _ => return Err(EngineError::NotBuyPhase),
        },
        None => return Err(EngineError::GameNotStarted),
    };
    let auction_enabled = lobby.ruleset.auction_enabled;
    let mut g = take_game(lobby);
    decline_purchase(&mut g, tile_index, auction_enabled);
    finish(lobby, g)
}

fn pay_rent(lobby: &mut Lobby, pid: Option<u8>) -> (r: Result<Step, EngineError>)
    requires
        rent_safe(old(lobby)@, pid),
    ensures
        outcome_matches(on_pay_rent(old(lobby)@, pid), r, final(lobby)@),
{
    match check_turn(lobby, pid) {
        Ok(_) => {},
        Err(e) => return Err(e),
    }
    let (amount, to_player) = match &lobby.game {
        Some(g) => match g.turn_phase {
            TurnPhase::PayingRent { amount, to_player } => (amount, to_player),
            _ => return Err(EngineError::NotRentPhase),
        },
        None => return Err(EngineError::GameNotStarted),
    };
    let mut g = take_game(lobby);
    let ghost s = g@;
    let ci = g.current_player_index;
    // Deduct from the payer
    let money = g.players[ci].money;
    g.players[ci].money = if money >= amount { money - amount } else { 0 };
    let ghost g1 = g@;
    proof {
        assert(g1.players =~= taxed(s, amount).players);
        assert(g1 =~= taxed(s, amount));
        lemma_find_id_found(g1.players, to_player);
    }
    // Pay the owner
    match find_player_index(&g.players, to_player) {
        Some(k) => {
            g.players[k].money += amount;
            proof {
                assert(g@.players =~= g1.players.update(k as int, g1.players[k as int].with_money((g1.players[k as int].money + amount) as u32)));
            }
        },
        None => {},
    }
    g.turn_phase = TurnPhase::PostRoll;
    proof {
        assert(g@ =~= rent_paid(s, amount, to_player));
    }
    let log = rent_log(&g.players[ci].name, amount);
    finish_with_log(lobby, g, log)
}

fn bid(lobby: &mut Lobby, pid: Option<u8>, amount: u32) -> (r: Result<Step, EngineError>)
    ensures
        outcome_matches(on_bid(old(lobby)@, pid, amount), r, final(lobby)@),
{
    let id = match pid {
        Some(i) => i,
        None => return Err(EngineError::NotJoined),
    };
    if lobby.game.is_none() {
        return Err(EngineError::GameNotStarted);
    }
    let mut g = take_game(lobby);
    let ghost s = g@;
    if !place_bid(&mut g, id, amount) {
        lobby.game = Some(g);
        proof { assert(lobby@ =~= old(lobby)@); }
        return Err(EngineError::BidRejected);
    }
    finish(lobby, g)
}

/// Whether `id` is among `ids`.
pub(crate) fn lists_id(ids: &Vec<u8>, id: u8) -> (b: bool)
    ensures
        b == ids@.contains(id),
{
    let mut i: usize = 0;
    while i < ids.len()
        invariant
            i <= ids@.len(),
            forall|j: int| 0 <= j < i ==> ids@[j] != id,
        decreases ids@.len() - i,
    {
        if ids[i] == id {
            assert(ids@[i as int] == id);
            return true;
        }
        i += 1;
    }
    false
}

fn pass(lobby: &mut Lobby, pid: Option<u8>) -> (r: Result<Step, EngineError>)
    requires
        pass_safe(old(lobby)@, pid),
    ensures
        outcome_matches(on_pass(old(lobby)@, pid), r, final(lobby)@),
{
    let id = match pid {
        Some(i) => i,
        None => return Err(EngineError::NotJoined),
    };
    if lobby.game.is_none() {
        return Err(EngineError::GameNotStarted);
    }
    let mut g = take_game(lobby);
    let ghost s = g@;
    if !lists_id(&g.auction_passers, id) {
        g.auction_passers.push(id);
    }
    // Check whether every player still in the game has passed
    let active_count = crate::bankruptcy::active_ids(&g.players).len();
    proof {
        assert(active_count == s.active().len());
    }
    if g.auction_passers.len() >= active_count {
        finalize_auction(&mut g);
        g.auction_passers.clear();
    }
    proof {
        assert(g@ =~= passed(s, id));
    }
    finish(lobby, g)
}

fn settle_auction(lobby: &mut Lobby, pid: Option<u8>) -> (r: Result<Step, EngineError>)
    requires
        old(lobby).game is Some ==> auction_settleable(old(lobby)@.game.unwrap()),
    ensures
        outcome_matches(on_finalize(old(lobby)@, pid), r, final(lobby)@),
{
    let id = match pid {
        None => return Err(EngineError::NotJoined),
        Some(id) => id,
    };
    if lobby.game.is_none() {
        return Err(EngineError::GameNotStarted);
    }
    if lobby.host_id != Some(id) {
        return Err(EngineError::NotAuctionHost);
    }
    let mut g = take_game(lobby);
    finalize_auction(&mut g);
    finish(lobby, g)
}

fn jail_fine(lobby: &mut Lobby, pid: Option<u8>) -> (r: Result<Step, EngineError>)
    requires
        seated(old(lobby)@, pid),
    ensures
        outcome_matches(turn_action(old(lobby)@, pid, fine_paid(old(lobby)@.game.unwrap(), old(lobby).ruleset.jail_fine)), r, final(lobby)@),
{
    match check_turn(lobby, pid) {
        Ok(_) => {},
        Err(e) => return Err(e),
    }
    let fine = lobby.ruleset.jail_fine;
    let mut g = take_game(lobby);
    pay_jail_fine(&mut g, fine);
    finish(lobby, g)
}

fn jail_card(lobby: &mut Lobby, pid: Option<u8>) -> (r: Result<Step, EngineError>)
    requires
        seated(old(lobby)@, pid),
    ensures
        outcome_matches(turn_action(old(lobby)@, pid, card_used(old(lobby)@.game.unwrap())), r, final(lobby)@),
{
    match check_turn(lobby, pid) {
        Ok(_) => {},
        Err(e) => return Err(e),
    }
    let mut g = take_game(lobby);
    use_jail_card(&mut g);
    finish(lobby, g)
}

fn jail_roll(lobby: &mut Lobby, pid: Option<u8>, roll: DiceRoll) -> (r: Result<Step, EngineError>)
    requires
        engine_safe(old(lobby)@, pid, ClientMessage::RollForJail, roll),
    ensures
        outcome_matches(turn_action(old(lobby)@, pid, after_jail_roll(old(lobby)@.game.unwrap(), roll,
            old(lobby).ruleset.doubles_to_exit_jail, old(lobby).ruleset.jail_fine, old(lobby).ruleset.max_jail_turns, old(lobby).ruleset.go_salary)), r, final(lobby)@),
{
    match check_turn(lobby, pid) {
        Ok(_) => {},
        Err(e) => return Err(e),
    }
    let doubles_free = lobby.ruleset.doubles_to_exit_jail;
    let fine = lobby.ruleset.jail_fine;
    let max_turns = lobby.ruleset.max_jail_turns;
    let go_salary = lobby.ruleset.go_salary;
    let mut g = take_game(lobby);
    resolve_jail_roll(&mut g, roll, doubles_free, fine, max_turns, go_salary);
    finish(lobby, g)
}

fn build(lobby: &mut Lobby, pid: Option<u8>, tile_index: usize) -> (r: Result<Step, EngineError>)
    requires
        engine_safe(old(lobby)@, pid, ClientMessage::BuildHouse { tile_index }, DiceRoll { die1: 1, die2: 1 }),
    ensures
        outcome_matches(turn_action(old(lobby)@, pid, built(old(lobby)@.game.unwrap(), tile_index)), r, final(lobby)@),
{
    match check_turn(lobby, pid) {
        Ok(_) => {},
        Err(e) => return Err(e),
    }
    let mut g = take_game(lobby);
    build_house(&mut g, tile_index);
    finish(lobby, g)
}

fn sell(lobby: &mut Lobby, pid: Option<u8>, tile_index: usize) -> (r: Result<Step, EngineError>)
    requires
        engine_safe(old(lobby)@, pid, ClientMessage::SellHouse { tile_index }, DiceRoll { die1: 1, die2: 1 }),
    ensures
        outcome_matches(turn_action(old(lobby)@, pid, sold(old(lobby)@.game.unwrap(), tile_index)), r, final(lobby)@),
{
    match check_turn(lobby, pid) {
        Ok(_) => {},
        Err(e) => return Err(e),
    }
    let mut g = take_game(lobby);
    sell_house(&mut g, tile_index);
    finish(lobby, g)
}

fn mortgage(lobby: &mut Lobby, pid: Option<u8>, tile_index: usize) -> (r: Result<Step, EngineError>)
    requires
        engine_safe(old(lobby)@, pid, ClientMessage::Mortgage { tile_index }, DiceRoll { die1: 1, die2: 1 }),
    ensures
        outcome_matches(turn_action(old(lobby)@, pid, mortgaged(old(lobby)@.game.unwrap(), tile_index)), r, final(lobby)@),
{
    match check_turn(lobby, pid) {
        Ok(_) => {},
        Err(e) => return Err(e),
    }
    let mut g = take_game(lobby);
    mortgage_property(&mut g, tile_index);
    finish(lobby, g)
}

fn unmortgage(lobby: &mut Lobby, pid: Option<u8>, tile_index: usize) -> (r: Result<Step, EngineError>)
    requires
        engine_safe(old(lobby)@, pid, ClientMessage::Unmortgage { tile_index }, DiceRoll { die1: 1, die2: 1 }),
    ensures
        outcome_matches(turn_action(old(lobby)@, pid, unmortgaged(old(lobby)@.game.unwrap(), tile_index)), r, final(lobby)@),
{
    match check_turn(lobby, pid) {
        Ok(_) => {},
        Err(e) => return Err(e),
    }
    let mut g = take_game(lobby);
    unmortgage_property(&mut g, tile_index);
    finish(lobby, g)
}

fn propose(
    lobby: &mut Lobby,
    pid: Option<u8>,
    to_player: u8,
    offered_properties: Vec<usize>,
    offered_money: u32,
    requested_properties: Vec<usize>,
    requested_money: u32,
) -> (r: Result<Step, EngineError>)
    ensures
        outcome_matches(
            on_propose(old(lobby)@, pid, to_player, offered_properties, offered_money, requested_properties, requested_money),
            r,
            final(lobby)@,
        ),
{
    let id = match pid {
        Some(i) => i,
        None => return Err(EngineError::NotJoined),
    };
    let note = ServerMessage::TradeProposed {
        from_player: id,
        offered_properties: copy_indices(&offered_properties),
        offered_money,
        requested_properties: copy_indices(&requested_properties),
        requested_money,
    };
    lobby.pending_trade = Some(TradeOffer {
        from_player: id,
        to_player,
        offered_properties,
        offered_money,
        requested_properties,
        requested_money,
    });
    let outbox = vec![Outgoing { to: Recipient::Only(to_player), msg: note }];
    proof {
        assert(outbox@.map_values(|o: Outgoing| o@) =~= on_propose(old(lobby)@, pid, to_player, offered_properties,
            offered_money, requested_properties, requested_money).result->Ok_0->notes);
    }
    done(outbox)
}

fn accept(lobby: &mut Lobby, pid: Option<u8>) -> (r: Result<Step, EngineError>)
    requires
        old(lobby).pending_trade is Some && old(lobby).game is Some
            ==> trade_in_range(old(lobby)@.game.unwrap(), old(lobby).pending_trade.unwrap()),
    ensures
        outcome_matches(on_accept(old(lobby)@, pid), r, final(lobby)@),
{
    let id = match pid {
        None => return Err(EngineError::NotJoined),
        Some(id) => id,
    };
    match &lobby.pending_trade {
        None => return Err(EngineError::NoPendingTrade),
        Some(o) => if o.to_player != id {
            return Err(EngineError::NotTradeTarget);
        },
    }
    let offer = match lobby.pending_trade.take() {
        Some(o) => o,
        None => return Err(EngineError::NoPendingTrade),
    };
    if lobby.game.is_none() {
        return Err(EngineError::GameNotStarted);
    }
    let mut g = take_game(lobby);
    execute_trade(&mut g, offer);
    let u = state_update(&g);
    lobby.game = Some(g);
    let outbox = vec![Outgoing { to: Recipient::Everyone, msg: ServerMessage::TradeAccepted }, u];
    proof {
        assert(outbox@.map_values(|o: Outgoing| o@) =~= on_accept(old(lobby)@, pid).result->Ok_0->notes);
    }
    done(outbox)
}

fn reject(lobby: &mut Lobby) -> (r: Result<Step, EngineError>)
    ensures
        outcome_matches(sent(LobbyView { pending_trade: None, ..old(lobby)@ }, seq![(Recipient::Everyone, Note::TradeRejected)]), r, final(lobby)@),
{
    lobby.pending_trade = None;
    let outbox = vec![Outgoing { to: Recipient::Everyone, msg: ServerMessage::TradeRejected }];
    proof {
        assert(outbox@.map_values(|o: Outgoing| o@) =~= seq![(Recipient::Everyone, Note::TradeRejected)]);
    }
    done(outbox)
}

fn end_turn(lobby: &mut Lobby, pid: Option<u8>) -> (r: Result<Step, EngineError>)
    requires
        engine_safe(old(lobby)@, pid, ClientMessage::EndTurn, DiceRoll { die1: 1, die2: 1 }),
    ensures
        outcome_matches(turn_action(old(lobby)@, pid, turn_ended(old(lobby)@.game.unwrap())), r, final(lobby)@),
{
    match check_turn(lobby, pid) {
        Ok(_) => {},
        Err(e) => return Err(e),
    }
    let mut g = take_game(lobby);
    let seats = g.players.len();
    assert(g.current_player_index < seats);
    g.advance_turn();
    finish(lobby, g)
}

fn bankrupt(lobby: &mut Lobby, pid: Option<u8>) -> (r: Result<Step, EngineError>)
    requires
        pid is Some && old(lobby).game is Some ==> bankruptcy_settleable(old(lobby)@.game.unwrap(), pid.unwrap(), None),
    ensures
        outcome_matches(on_bankruptcy(old(lobby)@, pid), r, final(lobby)@),
{
    let id = match pid {
        Some(i) => i,
        None => return Err(EngineError::NotJoined),
    };
    if lobby.game.is_none() {
        return Err(EngineError::GameNotStarted);
    }
    let mut g = take_game(lobby);
    let result = declare_bankrupt(&mut g, id, None);
    match result {
        BankruptcyResult::GameOver { winner } => {
            proof { lemma_find_id_found(g@.players, winner); }
            let winner_name = match find_player_index(&g.players, winner) {
                Some(k) => g.players[k].name.clone(),
                None => String::new(),
            };
            let u = state_update(&g);
            lobby.game = Some(g);
            let outbox = vec![
                Outgoing { to: Recipient::Everyone, msg: ServerMessage::GameOver { winner_id: winner, winner_name } },
                u,
            ];
            proof {
                assert(outbox@.map_values(|o: Outgoing| o@) =~= on_bankruptcy(old(lobby)@, pid).result->Ok_0->notes);
            }
            done(outbox)
        },
        _ => finish(lobby, g),
    }
}

/// Handle message `msg` from the connection playing as `player_id` (none
/// before it joined). `roll` is the throw used if the message rolls dice.
/// The answer is the step the server takes next, or why the message was refused.
pub fn handle_message(lobby: &mut Lobby, player_id: Option<u8>, msg: ClientMessage, roll: DiceRoll) -> (r: Result<Step, EngineError>)
    requires
        engine_safe(old(lobby)@, player_id, msg, roll),
    ensures
        outcome_matches(engine_step(old(lobby)@, player_id, msg, roll), r, final(lobby)@),
{
    match msg {
        ClientMessage::Join { name, token } => join(lobby, name, token),
        ClientMessage::StartGame => start(lobby, player_id),
        ClientMessage::RollDice => roll_dice(lobby, player_id, roll),
        ClientMessage::BuyProperty => buy(lobby, player_id),
        ClientMessage::DeclineProperty => decline(lobby, player_id),
        ClientMessage::PayRent => pay_rent(lobby, player_id),
        ClientMessage::PlaceBid { amount } => bid(lobby, player_id, amount),
        ClientMessage::PassBid => pass(lobby, player_id),
        ClientMessage::FinalizeAuction => settle_auction(lobby, player_id),
        ClientMessage::PayJailFine => jail_fine(lobby, player_id),
        ClientMessage::UseJailCard => jail_card(lobby, player_id),
        ClientMessage::RollForJail => jail_roll(lobby, player_id, roll),
        ClientMessage::BuildHouse { tile_index } => build(lobby, player_id, tile_index),
        ClientMessage::SellHouse { tile_index } => sell(lobby, player_id, tile_index),
        ClientMessage::Mortgage { tile_index } => mortgage(lobby, player_id, tile_index),
        ClientMessage::Unmortgage { tile_index } => unmortgage(lobby, player_id, tile_index),
        ClientMessage::ProposeTrade { to_player, offered_properties, offered_money, requested_properties, requested_money } =>
            propose(lobby, player_id, to_player, offered_properties, offered_money, requested_properties, requested_money),
        ClientMessage::AcceptTrade => accept(lobby, player_id),
        ClientMessage::RejectTrade => reject(lobby),
        ClientMessage::EndTurn => end_turn(lobby, player_id),
        // An internal client signal, never sent over the wire
        ClientMessage::Connect { addr: _ } => {
            let outbox: Vec<Outgoing> = Vec::new();
            proof { assert(outbox@.map_values(|o: Outgoing| o@) =~= Seq::<(Recipient, Note)>::empty()); }
            done(outbox)
        },
        ClientMessage::DeclareBankruptcy => bankrupt(lobby, player_id),
    }
}

} // verus!
