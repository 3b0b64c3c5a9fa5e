use vstd::prelude::*;
use crate::board::Tile;
use crate::player::{Player, PlayerView};
use crate::state::{GameState, GameView, TurnPhase, find_id, find_player_index, lemma_find_id_found};

verus! {

/// Result of a buy attempt.
#[derive(Debug, Clone, Copy, PartialEq, Eq, Structural)]
pub enum BuyResult {
    /// Property successfully purchased
    Purchased,
    /// Player couldn't afford it
    InsufficientFunds,
    /// Tile is not buyable
    NotBuyable,
    /// Tile is already owned
    AlreadyOwned,
}

/// What the current player's attempt to buy `tile_index` answers.
pub open spec fn buy_outcome(s: GameView, tile_index: int) -> BuyResult {
    let t = s.tiles[tile_index];
    if !t.is_buyable() {
        BuyResult::NotBuyable
    } else if t.owner() is Some {
        BuyResult::AlreadyOwned
    } else if s.current().money < t.price() {
        BuyResult::InsufficientFunds
    } else {
        BuyResult::Purchased
    }
}

/// The state after the current player bought `tile_index`: they pay its
/// price, own it, list it among their properties, and the turn moves on.
pub open spec fn after_buy(s: GameView, tile_index: int) -> GameView {
    let ci = s.current_player_index as int;
    let p = s.current();
    let t = s.tiles[tile_index];
    GameView {
        players: s.players.update(ci, PlayerView {
            money: (p.money - t.price()) as u32,
            properties: p.properties.push(tile_index as usize),
            ..p
        }),
        tiles: s.tiles.update(tile_index, t.with_owner(Some(p.id))),
        turn_phase: TurnPhase::PostRoll,
        ..s
    }
}

/// Current player attempts to buy the tile at `tile_index`.
pub fn buy_property(state: &mut GameState, tile_index: usize) -> (r: BuyResult)
    requires
        old(state)@.has_current(),
        tile_index < old(state)@.tiles.len(),
    ensures
        r == buy_outcome(old(state)@, tile_index as int),
        r == BuyResult::Purchased ==> final(state)@ == after_buy(old(state)@, tile_index as int),
        r != BuyResult::Purchased ==> final(state)@ == old(state)@,
{
    let ci = state.current_player_index;
    let player_id = state.players[ci].id;
    let player_money = state.players[ci].money;

    let price = match &state.board.tiles[tile_index] {
        Tile::Property(p) => {
            if p.owner.is_some() { return BuyResult::AlreadyOwned; }
            p.price
        },
        Tile::Railroad(r) => {
            if r.owner.is_some() { return BuyResult::AlreadyOwned; }
            r.price
        },
        Tile::Utility(u) => {
            if u.owner.is_some() { return BuyResult::AlreadyOwned; }
            u.price
        },
        _ => return BuyResult::NotBuyable,
    };

    if player_money < price {
        return BuyResult::InsufficientFunds;
    }

    let ghost s0 = state@;
    // Deduct money
    state.players[ci].money -= price;

    // Assign ownership
    match &mut state.board.tiles[tile_index] {
        Tile::Property(p) => p.owner = Some(player_id),
        Tile::Railroad(r) => r.owner = Some(player_id),
        Tile::Utility(u) => u.owner = Some(player_id),
        _ => {},
    }

    // Track in player's property list
    state.players[ci].properties.push(tile_index);

    state.turn_phase = TurnPhase::PostRoll;
    proof {
        assert(state@.players =~= after_buy(s0, tile_index as int).players);
        assert(state@.tiles =~= after_buy(s0, tile_index as int).tiles);
    }
    BuyResult::Purchased
}

/// Decline to buy: open an auction if the rules allow, otherwise move on.
pub fn decline_purchase(state: &mut GameState, tile_index: usize, auction_enabled: bool)
    requires
        auction_enabled ==> old(state)@.has_current(),
    ensures
        auction_enabled ==> final(state)@ == old(state)@.with_phase(TurnPhase::Auction {
            tile_index,
            highest_bid: 0,
            highest_bidder: old(state)@.current().id,
        }),
        !auction_enabled ==> final(state)@ == old(state)@.with_phase(TurnPhase::PostRoll),
{
    if auction_enabled {
        state.turn_phase = TurnPhase::Auction {
            tile_index,
            highest_bid: 0,
            highest_bidder: state.players[state.current_player_index].id,
        };
    } else {
        state.turn_phase = TurnPhase::PostRoll;
    }
}

/// Whether a bid of `bid` by `player_id` is taken: an auction is running, the
/// bid beats the highest one, and the first player with that id can pay it.
pub open spec fn bid_accepted(s: GameView, player_id: u8, bid: u32) -> bool {
    &&& s.turn_phase matches TurnPhase::Auction { highest_bid, .. }
    &&& bid > s.turn_phase->highest_bid
    &&& find_id(s.players, player_id) matches Some(i) && s.players[i].money >= bid
}

/// Submit an auction bid for the current auction.
pub fn place_bid(state: &mut GameState, player_id: u8, bid: u32) -> (ok: bool)
    ensures
        ok == bid_accepted(old(state)@, player_id, bid),
        ok ==> final(state)@ == old(state)@.with_phase(TurnPhase::Auction {
            tile_index: old(state).turn_phase->Auction_tile_index,
            highest_bid: bid,
            highest_bidder: player_id,
        }),
        !ok ==> final(state)@ == old(state)@,
{
    proof { lemma_find_id_found(state@.players, player_id); }
    if let TurnPhase::Auction { tile_index, highest_bid, highest_bidder: _ } = state.turn_phase {
        if bid > highest_bid {
            // Check the player can afford it
            let can_afford = match find_player_index(&state.players, player_id) {
                Some(i) => state.players[i].money >= bid,
                None => false,
            };

            if can_afford {
                state.turn_phase = TurnPhase::Auction { tile_index, highest_bid: bid, highest_bidder: player_id };
                return true;
            }
        }
    }
    false
}

/// The state after an auction ends: with no real bid, nobody buys; otherwise
/// the first player with the winning id pays the bid and gets the tile.
/// A winning id that no player carries leaves the state as it was.
pub open spec fn after_auction(s: GameView) -> GameView {
    match s.turn_phase {
        TurnPhase::Auction { tile_index, highest_bid, highest_bidder } => {
            if highest_bid == 0 {
                s.with_phase(TurnPhase::PostRoll)
            } else {
                match find_id(s.players, highest_bidder) {
                    Some(bi) => {
                        let b = s.players[bi];
                        GameView {
                            players: s.players.update(bi, PlayerView {
                                money: (b.money - highest_bid) as u32,
                                properties: b.properties.push(tile_index),
                                ..b
                            }),
                            tiles: s.tiles.update(tile_index as int, s.tiles[tile_index as int].with_owner(Some(highest_bidder))),
                            turn_phase: TurnPhase::PostRoll,
                            ..s
                        }
                    },
                    None => s,
                }
            }
        },
        _ => s,
    }
}

/// The auction can be settled without a panic: the tile exists and the
/// winner can still pay the bid.
pub open spec fn auction_settleable(s: GameView) -> bool {
    s.turn_phase matches TurnPhase::Auction { tile_index, highest_bid, highest_bidder } ==> (
        highest_bid != 0 ==> (find_id(s.players, highest_bidder) matches Some(bi) ==> {
            &&& tile_index < s.tiles.len()
            &&& s.players[bi].money >= highest_bid
        })
    )
}

/// Finalize the auction: award the property to the highest bidder.
pub fn finalize_auction(state: &mut GameState)
    requires
        auction_settleable(old(state)@),
    ensures
        final(state)@ == after_auction(old(state)@),
{
    let (tile_index, highest_bid, highest_bidder) = match state.turn_phase {
        TurnPhase::Auction { tile_index, highest_bid, highest_bidder } => {
            (tile_index, highest_bid, highest_bidder)
        },
        _ => return,
    };

    // Only complete if there was at least one real bid
    if highest_bid == 0 {
        state.turn_phase = TurnPhase::PostRoll;
        return;
    }

    // Find bidder index
    let bidder_index = match find_player_index(&state.players, highest_bidder) {
        Some(i) => i,
        None => return,
    };
    proof { lemma_find_id_found(state@.players, highest_bidder); }

    let ghost s0 = state@;
    state.players[bidder_index].money -= highest_bid;

    match &mut state.board.tiles[tile_index] {
        Tile::Property(p) => p.owner = Some(highest_bidder),
        Tile::Railroad(r) => r.owner = Some(highest_bidder),
        Tile::Utility(u) => u.owner = Some(highest_bidder),
        _ => {},
    }

    state.players[bidder_index].properties.push(tile_index);
    state.turn_phase = TurnPhase::PostRoll;
    proof {
        assert(state@.players =~= after_auction(s0).players);
        assert(state@.tiles =~= after_auction(s0).tiles);
    }
}

} // verus!
