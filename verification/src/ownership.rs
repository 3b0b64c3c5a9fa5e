//! The board and the players' property lists agree on who owns what, and
//! buying, auctions, trades and bankruptcy keep it so; so does every
//! message the server handles, and a game starts that way.
use vstd::prelude::*;
use crate::bankruptcy::{bankruptcy_outcome, after_bankruptcy, bankruptcy_settleable, is_insolvent, players_after_bankruptcy,
    tiles_after_bankruptcy, lists, seized_by, returned_to_bank};
use crate::board::Tile;
use crate::dice::DiceRoll;
use crate::lobby::{LobbyView, opening_game};
use crate::loader::{RawTile, tile_read};
use crate::network::ClientMessage;
use crate::engine::{engine_step, engine_safe, turn_gate, passed, rolled, taxed, rent_paid, fine_paid, card_used, built, sold, mortgaged, unmortgaged, turn_ended};
use crate::buildings::{after_build, after_sell, build_outcome, sell_outcome, mortgage_outcome, unmortgage_outcome, BuildResult, MortgageResult};
use crate::movement::{advance_result, advance_in_range, MoveResult};
use crate::jail::after_jail_roll;
use crate::movement::after_advance;
use crate::buying::{bid_accepted, after_buy, buy_outcome, after_auction, auction_settleable, BuyResult};
use crate::player::PlayerView;
use crate::state::{GameView, TurnPhase, find_id, lemma_find_id_found};
use crate::trading::{without, transfer_one, transfer_all, players_after_payment, after_trade, trade_outcome,
    trade_in_range, list_issue, list_checkable, tile_issue, TradeOffer, TradeResult};

verus! {

/// Player ids are unique.
pub open spec fn distinct_ids(ps: Seq<PlayerView>) -> bool {
    forall|i: int, j: int| 0 <= i < ps.len() && 0 <= j < ps.len() && i != j ==> ps[i].id != ps[j].id
}

/// A player lists a tile exactly when the tile names that player as owner,
/// ids are unique, and every listed tile lies on the board.
pub open spec fn ownership_agrees(s: GameView) -> bool {
    &&& distinct_ids(s.players)
    &&& forall|i: int, t: usize| 0 <= i < s.players.len() && t < s.tiles.len()
            ==> (s.tiles[t as int].owner() == Some(s.players[i].id) <==> #[trigger] s.players[i].properties.contains(t))
    &&& forall|i: int, k: int| 0 <= i < s.players.len() && 0 <= k < s.players[i].properties.len()
            ==> (#[trigger] s.players[i].properties[k]) < s.tiles.len()
}

proof fn lemma_with_owner(t: Tile, o: Option<u8>)
    requires
        t.is_buyable(),
    ensures
        t.with_owner(o).owner() == o,
        t.with_owner(o).is_buyable(),
{
}

proof fn lemma_push_contains(s: Seq<usize>, x: usize, u: usize)
    ensures
        s.push(x).contains(u) <==> (s.contains(u) || u == x),
{
    if s.push(x).contains(u) {
        let k = choose|k: int| 0 <= k < s.push(x).len() && s.push(x)[k] == u;
        if k < s.len() {
            assert(s[k] == u);
        }
    }
    if s.contains(u) {
        let k = choose|k: int| 0 <= k < s.len() && s[k] == u;
        assert(s.push(x)[k] == u);
    }
    if u == x {
        assert(s.push(x)[s.len() as int] == u);
    }
}

proof fn lemma_without_contains(s: Seq<usize>, t: usize, u: usize)
    ensures
        without(s, t).contains(u) <==> (s.contains(u) && u != t),
    decreases s.len(),
{
    reveal_with_fuel(Seq::filter, 1);
    if s.len() > 0 {
        lemma_without_contains(s.drop_last(), t, u);
        lemma_push_contains(without(s.drop_last(), t), s.last(), u);
        lemma_push_contains(s.drop_last(), s.last(), u);
        assert(s.drop_last().push(s.last()) =~= s);
    }
}

/// Buying a tile keeps the board and the property lists in agreement.
pub proof fn law_buying_keeps_ownership(s: GameView, tile_index: usize)
    requires
        ownership_agrees(s),
        s.has_current(),
        tile_index < s.tiles.len(),
        buy_outcome(s, tile_index as int) == BuyResult::Purchased,
    ensures
        ownership_agrees(after_buy(s, tile_index as int)),
{
    let a = after_buy(s, tile_index as int);
    let ci = s.current_player_index as int;
    let t = s.tiles[tile_index as int];
    lemma_with_owner(t, Some(s.current().id));
    assert forall|i: int, u: usize| 0 <= i < a.players.len() && u < a.tiles.len()
        implies (a.tiles[u as int].owner() == Some(a.players[i].id) <==> #[trigger] a.players[i].properties.contains(u)) by {
        lemma_push_contains(s.players[ci].properties, tile_index, u);
        assert(s.players[i].properties.contains(u) <==> s.tiles[u as int].owner() == Some(s.players[i].id));
        if i != ci {
            assert(s.players[i].id != s.players[ci].id);
            assert(a.players[i] == s.players[i]);
        } else {
            assert(a.players[i].properties == s.players[ci].properties.push(tile_index));
        }
        if u == tile_index {
            assert(a.tiles[u as int] == t.with_owner(Some(s.current().id)));
        } else {
            assert(a.tiles[u as int] == s.tiles[u as int]);
        }
    }
    assert forall|i: int, k: int| 0 <= i < a.players.len() && 0 <= k < a.players[i].properties.len()
        implies (#[trigger] a.players[i].properties[k]) < a.tiles.len() by {
        if i == ci && k < s.players[ci].properties.len() {
            assert(a.players[i].properties[k] == s.players[i].properties[k]);
        }
    }
}

/// Settling an auction for an unowned tile keeps the board and the property
/// lists in agreement.
pub proof fn law_auction_keeps_ownership(s: GameView)
    requires
        ownership_agrees(s),
        auction_settleable(s),
        s.turn_phase matches TurnPhase::Auction { tile_index, .. }
            && tile_index < s.tiles.len() && s.tiles[tile_index as int].is_buyable()
            && s.tiles[tile_index as int].owner() is None,
    ensures
        ownership_agrees(after_auction(s)),
{
    let a = after_auction(s);
    if let TurnPhase::Auction { tile_index, highest_bid, highest_bidder } = s.turn_phase {
        if highest_bid != 0 {
            lemma_find_id_found(s.players, highest_bidder);
            if let Some(bi) = find_id(s.players, highest_bidder) {
                let tix = tile_index as int;
                lemma_with_owner(s.tiles[tix], Some(highest_bidder));
                assert forall|i: int, u: usize| 0 <= i < a.players.len() && u < a.tiles.len()
                    implies (a.tiles[u as int].owner() == Some(a.players[i].id) <==> #[trigger] a.players[i].properties.contains(u)) by {
                    lemma_push_contains(s.players[bi].properties, tile_index, u);
                    assert(s.players[i].properties.contains(u) <==> s.tiles[u as int].owner() == Some(s.players[i].id));
                    if i != bi {
                        assert(s.players[i].id != s.players[bi].id);
                        assert(a.players[i] == s.players[i]);
                    } else {
                        assert(a.players[i].properties == s.players[bi].properties.push(tile_index));
                    }
                    if u == tile_index {
                        assert(a.tiles[u as int] == s.tiles[tix].with_owner(Some(highest_bidder)));
                    } else {
                        assert(a.tiles[u as int] == s.tiles[u as int]);
                    }
                }
                assert forall|i: int, k: int| 0 <= i < a.players.len() && 0 <= k < a.players[i].properties.len()
                    implies (#[trigger] a.players[i].properties[k]) < a.tiles.len() by {
                    if i == bi && k < s.players[bi].properties.len() {
                        assert(a.players[i].properties[k] == s.players[i].properties[k]);
                    }
                }
            }
        }
    }
}

/// Every tile of a list that `owner` may trade away is on the board, can be
/// owned, and is owned by `owner`.
proof fn lemma_clean_list_owned(tiles: Seq<Tile>, list: Seq<usize>, owner: u8)
    requires
        list_checkable(tiles, list, owner),
        list_issue(tiles, list, owner) is None,
    ensures
        forall|k: int| 0 <= k < list.len() ==> #[trigger] list[k] < tiles.len()
            && tiles[list[k] as int].is_buyable() && tiles[list[k] as int].owner() == Some(owner),
    decreases list.len(),
{
    if list.len() > 0 {
        lemma_clean_list_owned(tiles, list.drop_first(), owner);
        assert forall|k: int| 0 <= k < list.len() implies #[trigger] list[k] < tiles.len()
            && tiles[list[k] as int].is_buyable() && tiles[list[k] as int].owner() == Some(owner) by {
            if k > 0 {
                assert(list[k] == list.drop_first()[k - 1]);
            } else {
                assert(tile_issue(tiles[list[0] as int], list[0], owner) is None);
            }
        }
    }
}

/// Moving tile `t` from seat `fi` to seat `ti` keeps the agreement, when the
/// tile belongs to one of the two.
proof fn lemma_transfer_one_agrees(s: GameView, t: usize, fi: int, ti: int, new_owner: u8)
    requires
        ownership_agrees(s),
        0 <= fi < s.players.len(),
        0 <= ti < s.players.len(),
        new_owner == s.players[ti].id,
        t < s.tiles.len(),
        s.tiles[t as int].is_buyable(),
        s.tiles[t as int].owner() == Some(s.players[fi].id) || s.tiles[t as int].owner() == Some(new_owner),
    ensures
        ownership_agrees(transfer_one(s, t, fi, ti, new_owner)),
        transfer_one(s, t, fi, ti, new_owner).players.len() == s.players.len(),
        transfer_one(s, t, fi, ti, new_owner).tiles.len() == s.tiles.len(),
        forall|k: int| 0 <= k < s.players.len() ==> #[trigger] transfer_one(s, t, fi, ti, new_owner).players[k].id == s.players[k].id,
        forall|u: int| 0 <= u < s.tiles.len() && u != t ==> #[trigger] transfer_one(s, t, fi, ti, new_owner).tiles[u] == s.tiles[u],
        transfer_one(s, t, fi, ti, new_owner).tiles[t as int].owner() == Some(new_owner),
        transfer_one(s, t, fi, ti, new_owner).tiles[t as int].is_buyable(),
{
    let a = transfer_one(s, t, fi, ti, new_owner);
    lemma_with_owner(s.tiles[t as int], Some(new_owner));
    assert forall|k: int| 0 <= k < s.players.len() implies #[trigger] a.players[k].id == s.players[k].id by {}
    assert forall|i: int, u: usize| 0 <= i < a.players.len() && u < a.tiles.len()
        implies (a.tiles[u as int].owner() == Some(a.players[i].id) <==> #[trigger] a.players[i].properties.contains(u)) by {
        let l = s.players[i].properties;
        assert(l.contains(u) <==> s.tiles[u as int].owner() == Some(s.players[i].id));
        assert(l.contains(t) <==> s.tiles[t as int].owner() == Some(s.players[i].id));
        lemma_without_contains(l, t, u);
        lemma_push_contains(l, t, u);
        lemma_push_contains(without(l, t), t, u);
        if i != fi && i != ti {
            assert(s.players[i].id != s.players[fi].id);
            assert(s.players[i].id != s.players[ti].id);
            assert(a.players[i] == s.players[i]);
        } else if i == ti && i == fi {
            assert(a.players[i].properties == without(l, t).push(t));
        } else if i == ti {
            assert(a.players[i].properties == l.push(t));
        } else {
            assert(s.players[fi].id != s.players[ti].id);
            assert(a.players[i].properties == without(l, t));
        }
        if u != t {
            assert(a.tiles[u as int] == s.tiles[u as int]);
        }
    }
    assert forall|i: int, k: int| 0 <= i < a.players.len() && 0 <= k < a.players[i].properties.len()
        implies (#[trigger] a.players[i].properties[k]) < a.tiles.len() by {
        let l = s.players[i].properties;
        let x = a.players[i].properties[k];
        assert(a.players[i].properties.contains(x));
        lemma_without_contains(l, t, x);
        lemma_push_contains(l, t, x);
        lemma_push_contains(without(l, t), t, x);
        if l.contains(x) {
            let j = choose|j: int| 0 <= j < l.len() && l[j] == x;
            assert(l[j] < s.tiles.len());
        }
    }
}

/// Tile `a` is tile `b`, as far as ownership goes, or an owned tile now
/// belongs to `o`.
pub open spec fn kept_or_taken(a: Tile, b: Tile, o: u8) -> bool {
    &&& a.is_buyable() == b.is_buyable()
    &&& (a.owner() == b.owner() || (b.owner() is Some && a.owner() == Some(o)))
}

/// Moving every tile of `list` from seat `fi` to seat `ti` keeps the
/// agreement, when each belongs to one of the two.
proof fn lemma_transfer_all_agrees(s: GameView, list: Seq<usize>, fi: int, ti: int, new_owner: u8)
    requires
        ownership_agrees(s),
        0 <= fi < s.players.len(),
        0 <= ti < s.players.len(),
        new_owner == s.players[ti].id,
        forall|k: int| 0 <= k < list.len() ==> #[trigger] list[k] < s.tiles.len()
            && s.tiles[list[k] as int].is_buyable()
            && (s.tiles[list[k] as int].owner() == Some(s.players[fi].id) || s.tiles[list[k] as int].owner() == Some(new_owner)),
    ensures
        ownership_agrees(transfer_all(s, list, fi, ti, new_owner)),
        transfer_all(s, list, fi, ti, new_owner).players.len() == s.players.len(),
        transfer_all(s, list, fi, ti, new_owner).tiles.len() == s.tiles.len(),
        forall|k: int| 0 <= k < s.players.len() ==> #[trigger] transfer_all(s, list, fi, ti, new_owner).players[k].id == s.players[k].id,
        forall|u: int| 0 <= u < s.tiles.len() ==> kept_or_taken(#[trigger] transfer_all(s, list, fi, ti, new_owner).tiles[u], s.tiles[u], new_owner),
    decreases list.len(),
{
    if list.len() > 0 {
        let t = list[0];
        assert(t < s.tiles.len());
        let s1 = transfer_one(s, t, fi, ti, new_owner);
        lemma_transfer_one_agrees(s, t, fi, ti, new_owner);
        let rest = list.drop_first();
        assert forall|k: int| 0 <= k < rest.len() implies #[trigger] rest[k] < s1.tiles.len()
            && s1.tiles[rest[k] as int].is_buyable()
            && (s1.tiles[rest[k] as int].owner() == Some(s1.players[fi].id) || s1.tiles[rest[k] as int].owner() == Some(new_owner)) by {
            assert(rest[k] == list[k + 1]);
            if rest[k] != t {
                assert(s1.tiles[rest[k] as int] == s.tiles[rest[k] as int]);
            }
        }
        assert(s1.players[ti].id == new_owner);
        lemma_transfer_all_agrees(s1, rest, fi, ti, new_owner);
        let a = transfer_all(s, list, fi, ti, new_owner);
        assert(a == transfer_all(s1, rest, fi, ti, new_owner));
        assert forall|u: int| 0 <= u < s.tiles.len() implies kept_or_taken(#[trigger] a.tiles[u], s.tiles[u], new_owner) by {
            assert(kept_or_taken(transfer_all(s1, rest, fi, ti, new_owner).tiles[u], s1.tiles[u], new_owner));
            if u != t {
                assert(s1.tiles[u] == s.tiles[u]);
            }
        }
        assert forall|k: int| 0 <= k < s.players.len() implies #[trigger] a.players[k].id == s.players[k].id by {
            assert(transfer_all(s1, rest, fi, ti, new_owner).players[k].id == s1.players[k].id);
            assert(s1.players[k].id == s.players[k].id);
        }
    } else {
        assert(transfer_all(s, list, fi, ti, new_owner) == s);
    }
}

/// A completed trade keeps the board and the property lists in agreement.
pub proof fn law_trade_keeps_ownership(s: GameView, offer: TradeOffer)
    requires
        ownership_agrees(s),
        trade_in_range(s, offer),
        trade_outcome(s, offer) == TradeResult::Completed,
    ensures
        ownership_agrees(after_trade(s, offer)),
{
    lemma_trade_effects(s, offer);
}

/// A completed trade keeps the agreement, leaves unowned tiles unowned and
/// keeps the phase.
proof fn lemma_trade_effects(s: GameView, offer: TradeOffer)
    requires
        ownership_agrees(s),
        trade_in_range(s, offer),
        trade_outcome(s, offer) == TradeResult::Completed,
    ensures
        ownership_agrees(after_trade(s, offer)),
        after_trade(s, offer).turn_phase == s.turn_phase,
        after_trade(s, offer).tiles.len() == s.tiles.len(),
        forall|u: int| 0 <= u < s.tiles.len() ==> #[trigger] after_trade(s, offer).tiles[u].is_buyable() == s.tiles[u].is_buyable()
            && (s.tiles[u].owner() is None ==> after_trade(s, offer).tiles[u].owner() is None),
{
    lemma_find_id_found(s.players, offer.from_player);
    lemma_find_id_found(s.players, offer.to_player);
    let fi = find_id(s.players, offer.from_player).unwrap();
    let ti = find_id(s.players, offer.to_player).unwrap();
    let offered = offer.offered_properties@;
    let requested = offer.requested_properties@;
    crate::trading::lemma_issue_not_completed(s.tiles, offered, offer.from_player);
    crate::trading::lemma_issue_not_completed(s.tiles, requested, offer.to_player);
    lemma_clean_list_owned(s.tiles, offered, offer.from_player);
    lemma_clean_list_owned(s.tiles, requested, offer.to_player);
    let s1 = GameView {
        players: players_after_payment(s.players, fi, ti, offer.offered_money, offer.requested_money),
        ..s
    };
    assert forall|k: int| 0 <= k < s.players.len() implies #[trigger] s1.players[k].id == s.players[k].id
        && s1.players[k].properties == s.players[k].properties by {}
    assert(s1.players.len() == s.players.len());
    assert(ownership_agrees(s1)) by {
        assert forall|i: int, u: usize| 0 <= i < s1.players.len() && u < s1.tiles.len()
            implies (s1.tiles[u as int].owner() == Some(s1.players[i].id) <==> #[trigger] s1.players[i].properties.contains(u)) by {
            assert(s.players[i].properties.contains(u) <==> s.tiles[u as int].owner() == Some(s.players[i].id));
        }
        assert forall|i: int, k: int| 0 <= i < s1.players.len() && 0 <= k < s1.players[i].properties.len()
            implies (#[trigger] s1.players[i].properties[k]) < s1.tiles.len() by {
            assert(s1.players[i].properties[k] == s.players[i].properties[k]);
        }
    }
    lemma_transfer_all_agrees(s1, offered, fi, ti, offer.to_player);
    let s2 = transfer_all(s1, offered, fi, ti, offer.to_player);
    assert forall|k: int| 0 <= k < requested.len() implies #[trigger] requested[k] < s2.tiles.len()
        && s2.tiles[requested[k] as int].is_buyable()
        && (s2.tiles[requested[k] as int].owner() == Some(s2.players[ti].id)
            || s2.tiles[requested[k] as int].owner() == Some(offer.from_player)) by {
        let u = requested[k] as int;
        assert(s1.tiles[u] == s.tiles[u]);
        assert(kept_or_taken(transfer_all(s1, offered, fi, ti, offer.to_player).tiles[u], s1.tiles[u], offer.to_player));
        assert(transfer_all(s1, offered, fi, ti, offer.to_player).players[ti].id == s1.players[ti].id);
    }
    lemma_transfer_all_agrees(s2, requested, ti, fi, offer.from_player);
    let s3 = transfer_all(s2, requested, ti, fi, offer.from_player);
    assert(s3 == after_trade(s, offer));
    lemma_transfer_all_phase(s1, offered, fi, ti, offer.to_player);
    lemma_transfer_all_phase(s2, requested, ti, fi, offer.from_player);
    assert forall|u: int| 0 <= u < s.tiles.len() implies #[trigger] s3.tiles[u].is_buyable() == s.tiles[u].is_buyable()
        && (s.tiles[u].owner() is None ==> s3.tiles[u].owner() is None) by {
        assert(s1.tiles[u] == s.tiles[u]);
        assert(kept_or_taken(s2.tiles[u], s1.tiles[u], offer.to_player));
        assert(kept_or_taken(s3.tiles[u], s2.tiles[u], offer.from_player));
    }
}

proof fn lemma_transfer_all_phase(s: GameView, list: Seq<usize>, fi: int, ti: int, new_owner: u8)
    ensures
        transfer_all(s, list, fi, ti, new_owner).turn_phase == s.turn_phase,
    decreases list.len(),
{
    if list.len() > 0 {
        lemma_transfer_all_phase(transfer_one(s, list[0], fi, ti, new_owner), list.drop_first(), fi, ti, new_owner);
    }
}

proof fn lemma_add_contains(a: Seq<usize>, b: Seq<usize>, u: usize)
    ensures
        (a + b).contains(u) <==> (a.contains(u) || b.contains(u)),
{
    if (a + b).contains(u) {
        let k = choose|k: int| 0 <= k < (a + b).len() && (a + b)[k] == u;
        if k < a.len() {
            assert(a[k] == u);
        } else {
            assert(b[k - a.len()] == u);
        }
    }
    if a.contains(u) {
        let k = choose|k: int| 0 <= k < a.len() && a[k] == u;
        assert((a + b)[k] == u);
    }
    if b.contains(u) {
        let k = choose|k: int| 0 <= k < b.len() && b[k] == u;
        assert((a + b)[a.len() + k] == u);
    }
}

proof fn lemma_lists_contains(props: Seq<usize>, u: usize)
    ensures
        lists(props, u as int) <==> props.contains(u),
{
    if lists(props, u as int) {
        let k = choose|k: int| 0 <= k < props.len() && #[trigger] props[k] as int == u as int;
        assert(props[k] == u);
    }
    if props.contains(u) {
        let k = choose|k: int| 0 <= k < props.len() && props[k] == u;
        assert(props[k] as int == u as int);
    }
}

/// Going bankrupt, to the bank or to another player, keeps the board and
/// the property lists in agreement.
pub proof fn law_bankruptcy_keeps_ownership(s: GameView, player_id: u8, creditor: Option<u8>)
    requires
        ownership_agrees(s),
        bankruptcy_settleable(s, player_id, creditor),
        is_insolvent(s, player_id),
        creditor != Some(player_id),
    ensures
        ownership_agrees(after_bankruptcy(s, player_id, creditor)),
{
    lemma_find_id_found(s.players, player_id);
    let bi = find_id(s.players, player_id).unwrap();
    let props = s.players[bi].properties;
    let ps = players_after_bankruptcy(s.players, bi, creditor);
    let ts = tiles_after_bankruptcy(s.tiles, props, creditor);
    let a = after_bankruptcy(s, player_id, creditor);
    assert(a.players == ps && a.tiles == ts);
    let ci: int = match creditor {
        Some(c) => {
            lemma_find_id_found(s.players, c);
            find_id(s.players, c).unwrap()
        },
        None => bi,
    };
    if creditor is Some {
        assert(ci != bi);
    }
    assert forall|k: int| 0 <= k < s.players.len() implies #[trigger] ps[k].id == s.players[k].id
        && (k != bi && k != ci ==> ps[k].properties == s.players[k].properties) by {}
    assert(ps[bi].properties == Seq::<usize>::empty());
    if creditor is Some {
        assert(ps[ci].properties == s.players[ci].properties + props);
    }
    assert forall|i: int, u: usize| 0 <= i < a.players.len() && u < a.tiles.len()
        implies (a.tiles[u as int].owner() == Some(a.players[i].id) <==> #[trigger] a.players[i].properties.contains(u)) by {
        lemma_lists_contains(props, u);
        lemma_add_contains(s.players[ci].properties, props, u);
        assert(s.players[i].properties.contains(u) <==> s.tiles[u as int].owner() == Some(s.players[i].id));
        assert(props.contains(u) <==> s.tiles[u as int].owner() == Some(s.players[bi].id));
        if i != bi {
            assert(s.players[i].id != s.players[bi].id);
        }
        if i != ci && creditor is Some {
            assert(s.players[i].id != s.players[ci].id);
        }
        if props.contains(u) {
            match creditor {
                Some(c) => assert(a.tiles[u as int] == seized_by(s.tiles[u as int], c)),
                None => assert(a.tiles[u as int] == returned_to_bank(s.tiles[u as int])),
            }
        } else {
            assert(a.tiles[u as int] == s.tiles[u as int]);
        }
    }
    assert forall|i: int, k: int| 0 <= i < a.players.len() && 0 <= k < a.players[i].properties.len()
        implies (#[trigger] a.players[i].properties[k]) < a.tiles.len() by {
        let x = a.players[i].properties[k];
        if i == ci && creditor is Some {
            if k < s.players[ci].properties.len() {
                assert(x == s.players[ci].properties[k]);
            } else {
                assert(x == props[k - s.players[ci].properties.len()]);
            }
        } else {
            assert(x == s.players[i].properties[k]);
        }
    }
}

/// `b` has the same owners and property lists as `a`.
pub open spec fn same_ownership(a: GameView, b: GameView) -> bool {
    &&& a.players.len() == b.players.len()
    &&& a.tiles.len() == b.tiles.len()
    &&& forall|i: int| 0 <= i < a.players.len()
            ==> #[trigger] b.players[i].id == a.players[i].id && b.players[i].properties == a.players[i].properties
    &&& forall|u: int| 0 <= u < a.tiles.len()
            ==> #[trigger] b.tiles[u].owner() == a.tiles[u].owner() && b.tiles[u].is_buyable() == a.tiles[u].is_buyable()
}

proof fn lemma_same_ownership(a: GameView, b: GameView)
    requires
        ownership_agrees(a),
        same_ownership(a, b),
    ensures
        ownership_agrees(b),
{
    assert forall|i: int, j: int| 0 <= i < b.players.len() && 0 <= j < b.players.len() && i != j
        implies b.players[i].id != b.players[j].id by {
        assert(b.players[i].id == a.players[i].id);
        assert(b.players[j].id == a.players[j].id);
    }
    assert forall|i: int, u: usize| 0 <= i < b.players.len() && u < b.tiles.len()
        implies (b.tiles[u as int].owner() == Some(b.players[i].id) <==> #[trigger] b.players[i].properties.contains(u)) by {
        assert(b.players[i].id == a.players[i].id);
        assert(b.tiles[u as int].owner() == a.tiles[u as int].owner());
        assert(a.players[i].properties.contains(u) <==> a.tiles[u as int].owner() == Some(a.players[i].id));
    }
    assert forall|i: int, k: int| 0 <= i < b.players.len() && 0 <= k < b.players[i].properties.len()
        implies (#[trigger] b.players[i].properties[k]) < b.tiles.len() by {
        assert(b.players[i].id == a.players[i].id);
        assert(b.players[i].properties[k] == a.players[i].properties[k]);
    }
}

proof fn lemma_player_change_keeps(s: GameView, ci: int, p: PlayerView)
    requires
        0 <= ci < s.players.len(),
        p.id == s.players[ci].id,
        p.properties == s.players[ci].properties,
    ensures
        same_ownership(s, s.with_player(ci, p)),
{
    let b = s.with_player(ci, p);
    assert forall|i: int| 0 <= i < s.players.len()
        implies #[trigger] b.players[i].id == s.players[i].id && b.players[i].properties == s.players[i].properties by {}
}

proof fn lemma_same_ownership_trans(a: GameView, b: GameView, c: GameView)
    requires
        same_ownership(a, b),
        same_ownership(b, c),
    ensures
        same_ownership(a, c),
{
    assert forall|i: int| 0 <= i < a.players.len()
        implies #[trigger] c.players[i].id == a.players[i].id && c.players[i].properties == a.players[i].properties by {
        assert(b.players[i].id == a.players[i].id);
        assert(c.players[i].id == b.players[i].id);
    }
    assert forall|u: int| 0 <= u < a.tiles.len()
        implies #[trigger] c.tiles[u].owner() == a.tiles[u].owner() && c.tiles[u].is_buyable() == a.tiles[u].is_buyable() by {
        assert(b.tiles[u].owner() == a.tiles[u].owner());
        assert(c.tiles[u].owner() == b.tiles[u].owner());
    }
}

proof fn lemma_advance_keeps(s: GameView, roll: DiceRoll, go_salary: u32)
    requires
        s.has_current(),
    ensures
        same_ownership(s, after_advance(s, roll, go_salary)),
{
    let p = s.current();
    let ci = s.current_player_index as int;
    let m = crate::movement::moved(s, roll, go_salary);
    assert(same_ownership(s, m)) by {
        assert forall|i: int| 0 <= i < s.players.len()
            implies #[trigger] m.players[i].id == s.players[i].id && m.players[i].properties == s.players[i].properties by {}
    }
    let new_pos = crate::movement::target_position(p.position, roll, s.tiles.len());
    if s.tiles[new_pos as int] is GoToJail {
        let mp = m.current();
        lemma_player_change_keeps(m, ci, crate::player::PlayerView { position: crate::movement::JAIL_POSITION, in_jail: true, jail_turns: 0, ..mp });
        lemma_same_ownership_trans(s, m, crate::movement::jailed(m));
    }
}

/// Building, selling, changing a mortgage, moving and jail turns change
/// nobody's holdings, so they keep the board and the property lists in
/// agreement.
pub proof fn law_other_actions_keep_ownership(
    s: GameView,
    tile_index: int,
    roll: DiceRoll,
    go_salary: u32,
    doubles_free: bool,
    jail_fine: u32,
    max_jail_turns: u8,
    mortgaged: bool,
    money: u32,
)
    requires
        ownership_agrees(s),
        s.has_current(),
        0 <= tile_index < s.tiles.len(),
    ensures
        s.tiles[tile_index] is Property ==> ownership_agrees(after_build(s, tile_index)),
        s.tiles[tile_index] is Property ==> ownership_agrees(after_sell(s, tile_index)),
        ownership_agrees(s.with_player(s.current_player_index as int, s.current().with_money(money))
            .with_tile(tile_index, s.tiles[tile_index].with_mortgaged(mortgaged))),
        ownership_agrees(after_advance(s, roll, go_salary)),
        ownership_agrees(after_jail_roll(s, roll, doubles_free, jail_fine, max_jail_turns, go_salary)),
{
    let ci = s.current_player_index as int;
    let p = s.current();
    if s.tiles[tile_index] is Property {
        lemma_same_ownership(s, after_build(s, tile_index));
        lemma_same_ownership(s, after_sell(s, tile_index));
    }
    let mg = s.with_player(ci, p.with_money(money)).with_tile(tile_index, s.tiles[tile_index].with_mortgaged(mortgaged));
    assert(same_ownership(s, mg)) by {
        assert forall|i: int| 0 <= i < s.players.len()
            implies #[trigger] mg.players[i].id == s.players[i].id && mg.players[i].properties == s.players[i].properties by {}
    }
    lemma_same_ownership(s, mg);
    lemma_advance_keeps(s, roll, go_salary);
    lemma_same_ownership(s, after_advance(s, roll, go_salary));
    let after = after_jail_roll(s, roll, doubles_free, jail_fine, max_jail_turns, go_salary);
    lemma_jail_roll_keeps(s, roll, doubles_free, jail_fine, max_jail_turns, go_salary);
    lemma_same_ownership(s, after);
}


/// Tile `t` lies on the board, can be owned, and has no owner yet.
pub open spec fn tile_free(tiles: Seq<Tile>, t: usize) -> bool {
    &&& t < tiles.len()
    &&& tiles[t as int].is_buyable()
    &&& tiles[t as int].owner() is None
}

/// The tile that a purchase decision or an auction is about is free.
pub open spec fn offered_tile_free(s: GameView) -> bool {
    match s.turn_phase {
        TurnPhase::BuyDecision { tile_index } => tile_free(s.tiles, tile_index),
        TurnPhase::Auction { tile_index, .. } => tile_free(s.tiles, tile_index),
        _ => true,
    }
}

/// The board and the property lists agree, and the tile on offer is free.
pub open spec fn game_consistent(s: GameView) -> bool {
    ownership_agrees(s) && offered_tile_free(s)
}

/// A phase that offers no tile.
pub open spec fn offers_no_tile(p: TurnPhase) -> bool {
    !(p is BuyDecision || p is Auction)
}

proof fn lemma_consistent_carries(s: GameView, b: GameView)
    requires
        game_consistent(s),
        same_ownership(s, b),
        b.turn_phase == s.turn_phase || offers_no_tile(b.turn_phase),
    ensures
        game_consistent(b),
{
    lemma_same_ownership(s, b);
    match b.turn_phase {
        TurnPhase::BuyDecision { tile_index } => {
            assert(b.tiles[tile_index as int].owner() == s.tiles[tile_index as int].owner());
        },
        TurnPhase::Auction { tile_index, .. } => {
            assert(b.tiles[tile_index as int].owner() == s.tiles[tile_index as int].owner());
        },
        _ => {},
    }
}

proof fn lemma_same_ownership_refl(s: GameView, b: GameView)
    requires
        b.players == s.players,
        b.tiles == s.tiles,
    ensures
        same_ownership(s, b),
{
}

proof fn lemma_jail_roll_keeps(s: GameView, roll: DiceRoll, doubles_free: bool, jail_fine: u32, max_jail_turns: u8, go_salary: u32)
    requires
        s.has_current(),
    ensures
        same_ownership(s, after_jail_roll(s, roll, doubles_free, jail_fine, max_jail_turns, go_salary)),
        after_jail_roll(s, roll, doubles_free, jail_fine, max_jail_turns, go_salary).turn_phase == s.turn_phase
            || offers_no_tile(after_jail_roll(s, roll, doubles_free, jail_fine, max_jail_turns, go_salary).turn_phase),
{
    let ci = s.current_player_index as int;
    let p = s.current();
    let after = after_jail_roll(s, roll, doubles_free, jail_fine, max_jail_turns, go_salary);
    if doubles_free && roll.die1 == roll.die2 {
        let r = crate::jail::released(s, p.money);
        lemma_player_change_keeps(s, ci, r.players[ci]);
        lemma_advance_keeps(r, roll, go_salary);
        lemma_same_ownership_trans(s, r, after);
    } else if p.jail_turns + 1 >= max_jail_turns && p.money >= jail_fine {
        let r = crate::jail::released(s, (p.money - jail_fine) as u32);
        lemma_player_change_keeps(s, ci, r.players[ci]);
        lemma_advance_keeps(r, roll, go_salary);
        lemma_same_ownership_trans(s, r, after);
    } else {
        let st = crate::jail::served_turn(s);
        lemma_player_change_keeps(s, ci, st.players[ci]);
    }
}


proof fn lemma_money_change_keeps(s: GameView, k: int, money: u32)
    requires
        0 <= k < s.players.len(),
    ensures
        same_ownership(s, s.with_player(k, s.players[k].with_money(money))),
{
    lemma_player_change_keeps(s, k, s.players[k].with_money(money));
}

proof fn lemma_rolled_consistent(s: GameView, roll: DiceRoll, go_salary: u32)
    requires
        game_consistent(s),
        advance_in_range(s, roll, go_salary),
        s.tiles.len() <= usize::MAX,
    ensures
        game_consistent(rolled(s, roll, go_salary)),
{
    let s1 = after_advance(s, roll, go_salary);
    let g = rolled(s, roll, go_salary);
    let ci = s.current_player_index as int;
    lemma_advance_keeps(s, roll, go_salary);
    let m = crate::movement::moved(s, roll, go_salary);
    let new_pos = crate::movement::target_position(s.current().position, roll, s.tiles.len());
    assert(m.tiles == s.tiles);
    assert(s1.tiles == s.tiles);
    match advance_result(s, roll, go_salary) {
        MoveResult::LandedOnProperty { tile_index } => {
            assert(tile_index == new_pos);
            assert(tile_free(g.tiles, tile_index));
            lemma_same_ownership(s, s1);
        },
        MoveResult::LandedOnTax { amount } => {
            let p = s1.current();
            lemma_money_change_keeps(s1, ci, if p.money >= amount { (p.money - amount) as u32 } else { 0 });
            lemma_same_ownership_trans(s, s1, taxed(s1, amount));
            lemma_consistent_carries(s, g);
        },
        _ => {
            lemma_consistent_carries(s, g);
        },
    }
}

proof fn lemma_rent_paid_consistent(s: GameView, amount: u32, to: u8)
    requires
        game_consistent(s),
        s.has_current(),
    ensures
        game_consistent(rent_paid(s, amount, to)),
{
    let ci = s.current_player_index as int;
    let p = s.current();
    let g1 = taxed(s, amount);
    lemma_money_change_keeps(s, ci, if p.money >= amount { (p.money - amount) as u32 } else { 0 });
    let g2 = match find_id(g1.players, to) {
        Some(k) => g1.with_player(k, g1.players[k].with_money((g1.players[k].money + amount) as u32)),
        None => g1,
    };
    lemma_find_id_found(g1.players, to);
    if let Some(k) = find_id(g1.players, to) {
        lemma_money_change_keeps(g1, k, (g1.players[k].money + amount) as u32);
        lemma_same_ownership_trans(s, g1, g2);
    }
    lemma_consistent_carries(s, rent_paid(s, amount, to));
}

/// Paying the fine, using a card, building, selling, changing a mortgage,
/// rolling in jail and ending the turn keep the game consistent.
proof fn lemma_turn_actions_consistent(s: GameView, t: usize, roll: DiceRoll, doubles_free: bool, jail_fine: u32, max_jail_turns: u8, go_salary: u32)
    requires
        game_consistent(s),
        s.has_current(),
    ensures
        game_consistent(fine_paid(s, jail_fine)),
        game_consistent(card_used(s)),
        t < s.tiles.len() ==> game_consistent(built(s, t)),
        t < s.tiles.len() ==> game_consistent(sold(s, t)),
        t < s.tiles.len() ==> game_consistent(mortgaged(s, t)),
        t < s.tiles.len() ==> game_consistent(unmortgaged(s, t)),
        game_consistent(after_jail_roll(s, roll, doubles_free, jail_fine, max_jail_turns, go_salary)),
        s.players.len() > 0 ==> game_consistent(turn_ended(s)),
{
    let ci = s.current_player_index as int;
    let p = s.current();
    if p.money >= jail_fine {
        let r = crate::jail::released(s, (p.money - jail_fine) as u32);
        lemma_player_change_keeps(s, ci, r.players[ci]);
        lemma_consistent_carries(s, fine_paid(s, jail_fine));
    }
    if p.get_out_of_jail != 0 {
        let q = PlayerView { get_out_of_jail: (p.get_out_of_jail - 1) as u8, in_jail: false, jail_turns: 0, ..p };
        lemma_player_change_keeps(s, ci, q);
        lemma_consistent_carries(s, card_used(s));
    }
    let ti = t as int;
    if t < s.tiles.len() {
    assert(same_ownership(s, built(s, t))) by {
        if build_outcome(s, ti) == BuildResult::Built {
            let b = after_build(s, ti);
            assert forall|i: int| 0 <= i < s.players.len()
                implies #[trigger] b.players[i].id == s.players[i].id && b.players[i].properties == s.players[i].properties by {}
        }
    }
    lemma_consistent_carries(s, built(s, t));
    assert(same_ownership(s, sold(s, t))) by {
        if sell_outcome(s, ti) == BuildResult::Built {
            let b = after_sell(s, ti);
            assert forall|i: int| 0 <= i < s.players.len()
                implies #[trigger] b.players[i].id == s.players[i].id && b.players[i].properties == s.players[i].properties by {}
        }
    }
    lemma_consistent_carries(s, sold(s, t));
    if let MortgageResult::Mortgaged { value } = mortgage_outcome(s, ti) {
        let m1 = s.with_player(ci, p.with_money((p.money + value) as u32));
        lemma_money_change_keeps(s, ci, (p.money + value) as u32);
        lemma_same_ownership_trans(s, m1, mortgaged(s, t));
    }
    lemma_consistent_carries(s, mortgaged(s, t));
    if let MortgageResult::Unmortgaged { cost } = unmortgage_outcome(s, ti) {
        let m1 = s.with_player(ci, p.with_money((p.money - cost) as u32));
        lemma_money_change_keeps(s, ci, (p.money - cost) as u32);
        lemma_same_ownership_trans(s, m1, unmortgaged(s, t));
    }
    lemma_consistent_carries(s, unmortgaged(s, t));
    }
    lemma_jail_roll_keeps(s, roll, doubles_free, jail_fine, max_jail_turns, go_salary);
    lemma_consistent_carries(s, after_jail_roll(s, roll, doubles_free, jail_fine, max_jail_turns, go_salary));
    lemma_consistent_carries(s, turn_ended(s));
}


/// Buying, declining, bidding, passing and settling an auction keep the
/// game consistent.
proof fn lemma_purchase_steps_consistent(s: GameView, id: u8, amount: u32, auction_enabled: bool)
    requires
        game_consistent(s),
    ensures
        s.has_current() ==> (s.turn_phase matches TurnPhase::BuyDecision { tile_index }
            ==> game_consistent(if buy_outcome(s, tile_index as int) == BuyResult::Purchased {
                    after_buy(s, tile_index as int)
                } else {
                    s
                })),
        s.has_current() ==> (s.turn_phase matches TurnPhase::BuyDecision { tile_index }
            ==> game_consistent(if auction_enabled {
                    s.with_phase(TurnPhase::Auction { tile_index, highest_bid: 0, highest_bidder: s.current().id })
                } else {
                    s.with_phase(TurnPhase::PostRoll)
                })),
        bid_accepted(s, id, amount) ==> game_consistent(s.with_phase(TurnPhase::Auction {
            tile_index: s.turn_phase->Auction_tile_index,
            highest_bid: amount,
            highest_bidder: id,
        })),
        auction_settleable(s) ==> game_consistent(after_auction(s)),
{
    if s.has_current() {
        if let TurnPhase::BuyDecision { tile_index } = s.turn_phase {
            if buy_outcome(s, tile_index as int) == BuyResult::Purchased {
                law_buying_keeps_ownership(s, tile_index);
            }
        }
    }
    if auction_settleable(s) {
        if let TurnPhase::Auction { tile_index, highest_bid, highest_bidder } = s.turn_phase {
            law_auction_keeps_ownership(s);
            if highest_bid == 0 {
                lemma_consistent_carries(s, after_auction(s));
            }
        }
    }
}

proof fn lemma_passed_consistent(s: GameView, id: u8)
    requires
        game_consistent(s),
        ({
            let passers = if s.auction_passers.contains(id) { s.auction_passers } else { s.auction_passers.push(id) };
            passers.len() >= s.active().len() ==> auction_settleable(GameView { auction_passers: passers, ..s })
        }),
    ensures
        game_consistent(passed(s, id)),
{
    let passers = if s.auction_passers.contains(id) { s.auction_passers } else { s.auction_passers.push(id) };
    let s1 = GameView { auction_passers: passers, ..s };
    lemma_consistent_carries(s, s1);
    if passers.len() >= s.active().len() {
        lemma_purchase_steps_consistent(s1, id, 0, false);
        let a = after_auction(s1);
        lemma_same_ownership_refl(a, GameView { auction_passers: Seq::empty(), ..a });
        lemma_consistent_carries(a, GameView { auction_passers: Seq::empty(), ..a });
    }
}


/// Accepting a trade keeps the game consistent.
proof fn lemma_trade_consistent(s: GameView, offer: TradeOffer)
    requires
        game_consistent(s),
        trade_in_range(s, offer),
    ensures
        game_consistent(if trade_outcome(s, offer) == TradeResult::Completed { after_trade(s, offer) } else { s }),
{
    if trade_outcome(s, offer) == TradeResult::Completed {
        lemma_trade_effects(s, offer);
        let a = after_trade(s, offer);
        match s.turn_phase {
            TurnPhase::BuyDecision { tile_index } => {
                assert(a.tiles[tile_index as int].is_buyable() == s.tiles[tile_index as int].is_buyable());
            },
            TurnPhase::Auction { tile_index, .. } => {
                assert(a.tiles[tile_index as int].is_buyable() == s.tiles[tile_index as int].is_buyable());
            },
            _ => {},
        }
    }
}

/// Going bankrupt to the bank keeps the game consistent.
proof fn lemma_bankruptcy_consistent(s: GameView, id: u8)
    requires
        game_consistent(s),
        bankruptcy_settleable(s, id, None),
    ensures
        game_consistent(if bankruptcy_outcome(s, id, None) is NotInsolvent { s } else { after_bankruptcy(s, id, None) }),
{
    if !(bankruptcy_outcome(s, id, None) is NotInsolvent) {
        law_bankruptcy_keeps_ownership(s, id, None);
        let a = after_bankruptcy(s, id, None);
        let bi = find_id(s.players, id).unwrap();
        let props = s.players[bi].properties;
        match s.turn_phase {
            TurnPhase::BuyDecision { tile_index } => {
                let u = tile_index as int;
                assert(a.tiles[u] == s.tiles[u] || a.tiles[u] == returned_to_bank(s.tiles[u]));
            },
            TurnPhase::Auction { tile_index, .. } => {
                let u = tile_index as int;
                assert(a.tiles[u] == s.tiles[u] || a.tiles[u] == returned_to_bank(s.tiles[u]));
            },
            _ => {},
        }
    }
}


/// Whatever message the server handles, a game in which the board and the
/// players' property lists agree, and the tile on offer is free, stays so.
pub proof fn law_engine_keeps_ownership(l: LobbyView, pid: Option<u8>, msg: ClientMessage, roll: DiceRoll)
    requires
        l.game matches Some(g) && game_consistent(g) && g.tiles.len() <= usize::MAX,
        engine_safe(l, pid, msg, roll),
    ensures
        engine_step(l, pid, msg, roll).after.game matches Some(g2) && game_consistent(g2),
{
    let g = l.game.unwrap();
    let rules = l.ruleset;
    let through = turn_gate(l, pid) is None;
    if through && g.has_current() {
        lemma_turn_actions_consistent(g, msg_tile(msg), roll, rules.doubles_to_exit_jail, rules.jail_fine, rules.max_jail_turns, rules.go_salary);
    }
    match msg {
        ClientMessage::RollDice => {
            if through && g.turn_phase == TurnPhase::WaitingForRoll {
                lemma_rolled_consistent(g, roll, rules.go_salary);
            }
        },
        ClientMessage::PayRent => {
            if let TurnPhase::PayingRent { amount, to_player } = g.turn_phase {
                if through {
                    lemma_rent_paid_consistent(g, amount, to_player);
                }
            }
        },
        ClientMessage::PlaceBid { amount } => {
            if let Some(id) = pid {
                lemma_purchase_steps_consistent(g, id, amount, rules.auction_enabled);
            }
        },
        ClientMessage::PassBid => {
            if let Some(id) = pid {
                lemma_passed_consistent(g, id);
            }
        },
        ClientMessage::AcceptTrade => {
            if let Some(offer) = l.pending_trade {
                lemma_trade_consistent(g, offer);
            }
        },
        ClientMessage::DeclareBankruptcy => {
            if let Some(id) = pid {
                lemma_bankruptcy_consistent(g, id);
            }
        },
        _ => {
            lemma_purchase_steps_consistent(g, 0, 0, rules.auction_enabled);
        },
    }
}

/// The tile a building or mortgage message names, 0 for other messages.
spec fn msg_tile(msg: ClientMessage) -> usize {
    match msg {
        ClientMessage::BuildHouse { tile_index } => tile_index,
        ClientMessage::SellHouse { tile_index } => tile_index,
        ClientMessage::Mortgage { tile_index } => tile_index,
        ClientMessage::Unmortgage { tile_index } => tile_index,
        _ => 0,
    }
}


/// A game opened in a lobby with distinct player ids, on a board where no
/// tile has an owner, starts with the board and the property lists in
/// agreement (nobody owns anything) and no tile on offer.
pub proof fn law_opening_game_consistent(l: LobbyView, tiles: Seq<Tile>)
    requires
        l.wf(),
        forall|u: int| 0 <= u < tiles.len() ==> (#[trigger] tiles[u]).owner() is None,
    ensures
        game_consistent(opening_game(l, tiles)),
{
    let g = opening_game(l, tiles);
    assert forall|i: int, j: int| 0 <= i < g.players.len() && 0 <= j < g.players.len() && i != j
        implies g.players[i].id != g.players[j].id by {
        assert(g.players[i].id == l.players[i].id);
        assert(g.players[j].id == l.players[j].id);
    }
    assert forall|i: int, t: usize| 0 <= i < g.players.len() && t < g.tiles.len()
        implies (g.tiles[t as int].owner() == Some(g.players[i].id) <==> #[trigger] g.players[i].properties.contains(t)) by {
        assert(g.players[i].properties == Seq::<usize>::empty());
        assert(tiles[t as int].owner() is None);
    }
}


/// A tile read from a board file has no owner, so a game opened on a loaded
/// board starts consistent.
pub proof fn law_loaded_tiles_unowned(raw: RawTile, index: usize)
    ensures
        tile_read(raw, index) matches Ok(t) ==> t.owner() is None,
{
}

} // verus!
