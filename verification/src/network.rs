use vstd::prelude::*;
use crate::player::Token;
use crate::state::{GameState, GameView};

verus! {

/// Messages sent from client to server.
#[derive(Debug, Clone)]
pub enum ClientMessage {
    /// Internal client signal: connect to this address
    Connect { addr: String },
    /// First message sent after connecting
    Join { name: String, token: Token },
    /// Host triggers game start
    StartGame,
    /// Roll the dice (only valid in the WaitingForRoll phase)
    RollDice,
    /// Buy the property the player landed on
    BuyProperty,
    /// Decline to buy: triggers an auction if enabled
    DeclineProperty,
    /// Submit an auction bid
    PlaceBid { amount: u32 },
    /// Pass on bidding in an auction
    PassBid,
    /// End the auction
    FinalizeAuction,
    /// Pay the rent that is due
    PayRent,
    /// Pay the jail fine
    PayJailFine,
    /// Use a get out of jail free card
    UseJailCard,
    /// Roll dice trying for doubles to escape jail
    RollForJail,
    /// Build a house or hotel on a property
    BuildHouse { tile_index: usize },
    /// Sell a house or hotel back to the bank
    SellHouse { tile_index: usize },
    /// Mortgage a property
    Mortgage { tile_index: usize },
    /// Unmortgage a property
    Unmortgage { tile_index: usize },
    /// Propose a trade to another player
    ProposeTrade {
        to_player: u8,
        offered_properties: Vec<usize>,
        offered_money: u32,
        requested_properties: Vec<usize>,
        requested_money: u32,
    },
    /// Accept a trade that was proposed to you
    AcceptTrade,
    /// Reject a trade
    RejectTrade,
    /// End your turn
    EndTurn,
    /// Declare bankruptcy
    DeclareBankruptcy,
}

/// Messages sent from server to client.
#[derive(Debug, Clone)]
pub enum ServerMessage {
    /// Sent to a client immediately after they successfully join
    JoinAck { assigned_id: u8 },
    /// Sent to a newly joined player with the full current lobby roster
    LobbyState { players: Vec<(u8, String, Token)> },
    /// Broadcast to all when a new player joins
    PlayerJoined { id: u8, name: String, token: Token },
    /// Broadcast to all when a player disconnects in the lobby
    PlayerLeft { id: u8 },
    /// Sent when the host rejects a join
    JoinRejected { reason: String },
    /// Full state snapshot: sent to all clients after every state change
    StateUpdate { state: GameState },
    /// Sent to all when the game starts
    GameStarted,
    /// Sent to all when the game ends
    GameOver { winner_id: u8, winner_name: String },
    /// An action was rejected: tells the client why
    ActionRejected { reason: String },
    /// Sent to the target player when a trade is proposed
    TradeProposed {
        from_player: u8,
        offered_properties: Vec<usize>,
        offered_money: u32,
        requested_properties: Vec<usize>,
        requested_money: u32,
    },
    /// Broadcast when a trade is accepted
    TradeAccepted,
    /// Broadcast when a trade is rejected
    TradeRejected,
    /// Game event log message
    EventLog { message: String },
}

/// A client message as a mathematical value.
#[verifier::ext_equal]
pub enum Request {
    Connect { addr: Seq<char> },
    Join { name: Seq<char>, token: Token },
    StartGame,
    RollDice,
    BuyProperty,
    DeclineProperty,
    PlaceBid { amount: u32 },
    PassBid,
    FinalizeAuction,
    PayRent,
    PayJailFine,
    UseJailCard,
    RollForJail,
    BuildHouse { tile_index: usize },
    SellHouse { tile_index: usize },
    Mortgage { tile_index: usize },
    Unmortgage { tile_index: usize },
    ProposeTrade {
        to_player: u8,
        offered_properties: Seq<usize>,
        offered_money: u32,
        requested_properties: Seq<usize>,
        requested_money: u32,
    },
    AcceptTrade,
    RejectTrade,
    EndTurn,
    DeclareBankruptcy,
}

impl View for ClientMessage {
    type V = Request;

    open spec fn view(&self) -> Request {
        match self {
            ClientMessage::Connect { addr } => Request::Connect { addr: addr@ },
            ClientMessage::Join { name, token } => Request::Join { name: name@, token: *token },
            ClientMessage::StartGame => Request::StartGame,
            ClientMessage::RollDice => Request::RollDice,
            ClientMessage::BuyProperty => Request::BuyProperty,
            ClientMessage::DeclineProperty => Request::DeclineProperty,
            ClientMessage::PlaceBid { amount } => Request::PlaceBid { amount: *amount },
            ClientMessage::PassBid => Request::PassBid,
            ClientMessage::FinalizeAuction => Request::FinalizeAuction,
            ClientMessage::PayRent => Request::PayRent,
            ClientMessage::PayJailFine => Request::PayJailFine,
            ClientMessage::UseJailCard => Request::UseJailCard,
            ClientMessage::RollForJail => Request::RollForJail,
            ClientMessage::BuildHouse { tile_index } => Request::BuildHouse { tile_index: *tile_index },
            ClientMessage::SellHouse { tile_index } => Request::SellHouse { tile_index: *tile_index },
            ClientMessage::Mortgage { tile_index } => Request::Mortgage { tile_index: *tile_index },
            ClientMessage::Unmortgage { tile_index } => Request::Unmortgage { tile_index: *tile_index },
            ClientMessage::ProposeTrade { to_player, offered_properties, offered_money, requested_properties, requested_money } => Request::ProposeTrade {
                to_player: *to_player,
                offered_properties: offered_properties@,
                offered_money: *offered_money,
                requested_properties: requested_properties@,
                requested_money: *requested_money,
            },
            ClientMessage::AcceptTrade => Request::AcceptTrade,
            ClientMessage::RejectTrade => Request::RejectTrade,
            ClientMessage::EndTurn => Request::EndTurn,
            ClientMessage::DeclareBankruptcy => Request::DeclareBankruptcy,
        }
    }
}

/// A server message as a mathematical value.
#[verifier::ext_equal]
pub enum Note {
    JoinAck { assigned_id: u8 },
    LobbyState { players: Seq<(u8, Seq<char>, Token)> },
    PlayerJoined { id: u8, name: Seq<char>, token: Token },
    PlayerLeft { id: u8 },
    JoinRejected { reason: Seq<char> },
    StateUpdate { state: GameView },
    GameStarted,
    GameOver { winner_id: u8, winner_name: Seq<char> },
    ActionRejected { reason: Seq<char> },
    TradeProposed {
        from_player: u8,
        offered_properties: Seq<usize>,
        offered_money: u32,
        requested_properties: Seq<usize>,
        requested_money: u32,
    },
    TradeAccepted,
    TradeRejected,
    EventLog { message: Seq<char> },
}

/// A roster with its names read as text.
pub open spec fn roster_entries(v: Seq<(u8, String, Token)>) -> Seq<(u8, Seq<char>, Token)> {
    v.map_values(|e: (u8, String, Token)| roster_entry(e))
}

/// A roster entry with its name read as text.
pub open spec fn roster_entry(e: (u8, String, Token)) -> (u8, Seq<char>, Token) {
    (e.0, e.1@, e.2)
}

impl View for ServerMessage {
    type V = Note;

    open spec fn view(&self) -> Note {
        match self {
            ServerMessage::JoinAck { assigned_id } => Note::JoinAck { assigned_id: *assigned_id },
            ServerMessage::LobbyState { players } => Note::LobbyState { players: roster_entries(players@) },
            ServerMessage::PlayerJoined { id, name, token } => Note::PlayerJoined { id: *id, name: name@, token: *token },
            ServerMessage::PlayerLeft { id } => Note::PlayerLeft { id: *id },
            ServerMessage::JoinRejected { reason } => Note::JoinRejected { reason: reason@ },
            ServerMessage::StateUpdate { state } => Note::StateUpdate { state: state@ },
            ServerMessage::GameStarted => Note::GameStarted,
            ServerMessage::GameOver { winner_id, winner_name } => Note::GameOver { winner_id: *winner_id, winner_name: winner_name@ },
            ServerMessage::ActionRejected { reason } => Note::ActionRejected { reason: reason@ },
            ServerMessage::TradeProposed { from_player, offered_properties, offered_money, requested_properties, requested_money } => Note::TradeProposed {
                from_player: *from_player,
                offered_properties: offered_properties@,
                offered_money: *offered_money,
                requested_properties: requested_properties@,
                requested_money: *requested_money,
            },
            ServerMessage::TradeAccepted => Note::TradeAccepted,
            ServerMessage::TradeRejected => Note::TradeRejected,
            ServerMessage::EventLog { message } => Note::EventLog { message: message@ },
        }
    }
}

/// Framing of messages over a byte stream: a 4-byte little-endian length,
/// then the payload.
pub struct Packet;

/// The four little-endian bytes of `n`.
pub open spec fn le_bytes(n: u32) -> Seq<u8> {
    seq![(n & 0xff) as u8, ((n >> 8u32) & 0xff) as u8, ((n >> 16u32) & 0xff) as u8, ((n >> 24u32) & 0xff) as u8]
}

/// The number whose little-endian bytes are `b`.
pub open spec fn le_value(b: [u8; 4]) -> u32 {
    (b[0] as u32) | ((b[1] as u32) << 8u32) | ((b[2] as u32) << 16u32) | ((b[3] as u32) << 24u32)
}

impl Packet {
    /// Frame an encoded message: the payload's length as four little-endian
    /// bytes (cut to 32 bits), then the payload itself.
    pub fn frame(payload: &Vec<u8>) -> (buf: Vec<u8>)
        ensures
            buf@ == le_bytes(payload@.len() as u32) + payload@,
    {
        let len = payload.len() as u32;
        let mut buf: Vec<u8> = Vec::new();
        buf.push((len & 0xff) as u8);
        buf.push(((len >> 8u32) & 0xff) as u8);
        buf.push(((len >> 16u32) & 0xff) as u8);
        buf.push(((len >> 24u32) & 0xff) as u8);
        let mut i: usize = 0;
        while i < payload.len()
            invariant
                i <= payload@.len(),
                len == payload@.len() as u32,
                buf@ == le_bytes(len) + payload@.take(i as int),
            decreases payload@.len() - i,
        {
            buf.push(payload[i]);
            proof { assert(buf@ =~= le_bytes(len) + payload@.take(i + 1)); }
            i += 1;
        }
        proof { assert(payload@.take(payload@.len() as int) =~= payload@); }
        buf
    }

    /// Read the payload length from a frame header.
    pub fn payload_len(header: [u8; 4]) -> (n: u32)
        ensures
            n == le_value(header),
    {
        (header[0] as u32) | ((header[1] as u32) << 8u32) | ((header[2] as u32) << 16u32) | ((header[3] as u32) << 24u32)
    }
}

/// Reading back the header of a frame gives the payload's length (cut to 32 bits).
pub proof fn lemma_frame_header_round_trip(n: u32)
    ensures
        le_value([le_bytes(n)[0], le_bytes(n)[1], le_bytes(n)[2], le_bytes(n)[3]]) == n,
{
    let b0 = (n & 0xff) as u8;
    let b1 = ((n >> 8u32) & 0xff) as u8;
    let b2 = ((n >> 16u32) & 0xff) as u8;
    let b3 = ((n >> 24u32) & 0xff) as u8;
    assert((b0 as u32) | ((b1 as u32) << 8u32) | ((b2 as u32) << 16u32) | ((b3 as u32) << 24u32) == n) by (bit_vector)
        requires
            b0 == (n & 0xff) as u8,
            b1 == ((n >> 8u32) & 0xff) as u8,
            b2 == ((n >> 16u32) & 0xff) as u8,
            b3 == ((n >> 24u32) & 0xff) as u8,
    ;
}

} // verus!
