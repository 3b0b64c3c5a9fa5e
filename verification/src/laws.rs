//! Properties that hold across the operations of the library.
use vstd::prelude::*;
use crate::bankruptcy::{asset_value, indices_on_board, after_bankruptcy, bankruptcy_outcome, BankruptcyResult, is_insolvent, liquidation_spec, holdings_value, lemma_holdings_nonneg};
use crate::board::{Tile, PropertyTile};
use crate::buildings::{after_build, after_sell, build_outcome, sell_outcome, BuildResult, mortgage_outcome, unmortgage_outcome, MortgageResult};
use crate::dice::DiceRoll;
use crate::engine::{engine_step, refuse, EngineError, Recipient, StepView};
use crate::lobby::{LobbyView, MAX_PLAYERS};
use crate::network::{ClientMessage, Note};
use crate::movement::{after_advance, advance_in_range, moved, target_position, jailed, JAIL_POSITION};
use crate::player::PlayerView;
use crate::rent::rent_due;
use crate::state::{GameView, find_id, lemma_find_id_found, lemma_find_id_first};
use crate::trading::{trade_in_range, after_trade, trade_outcome, TradeOffer, TradeResult, transfer_all, transfer_one, players_after_payment};

verus! {

/// Index after `k` steps from `i` round a cycle of `n`: each step moves to
/// `(index + 1) % n`, as `GameState::advance_turn` moves the current seat and
/// `CardDecks::draw_chance` / `draw_community_chest` move a deck's index.
pub open spec fn seat_after(i: int, n: int, k: nat) -> int
    decreases k,
{
    if k == 0 { i } else { (seat_after(i, n, (k - 1) as nat) + 1) % n }
}

/// Turns go round the table, and draws go round a deck: after `k` steps the
/// index is `(i + k) % n`, so after `n` steps it is back where it started.
pub proof fn law_turns_go_round(i: int, n: int, k: nat)
    requires
        0 <= i < n,
    ensures
        seat_after(i, n, k) == (i + k) % n,
        seat_after(i, n, n as nat) == i,
{
    lemma_seat_after_closed(i, n, k);
    lemma_seat_after_closed(i, n, n as nat);
    vstd::arithmetic::div_mod::lemma_mod_add_multiples_vanish(i, n);
    vstd::arithmetic::div_mod::lemma_small_mod(i as nat, n as nat);
}

proof fn lemma_mod_below_twice(x: int, n: int)
    requires
        0 < n,
        0 <= x < 2 * n,
    ensures
        x % n == if x < n { x } else { x - n },
{
    if x < n {
        vstd::arithmetic::div_mod::lemma_small_mod(x as nat, n as nat);
    } else {
        vstd::arithmetic::div_mod::lemma_small_mod((x - n) as nat, n as nat);
        vstd::arithmetic::div_mod::lemma_mod_add_multiples_vanish(x - n, n);
    }
}

/// `n` draws from a deck of `n` cards draw every card exactly once: from any
/// starting index, each position of the deck comes up at exactly one of the
/// first `n` draws.
pub proof fn law_draws_cover_the_deck(i: int, n: int, j: int)
    requires
        0 <= i < n,
        0 <= j < n,
    ensures
        exists|k: nat| k < n && #[trigger] seat_after(i, n, k) == j,
        forall|k1: nat, k2: nat| k1 < n && k2 < n && #[trigger] seat_after(i, n, k1) == j
            && #[trigger] seat_after(i, n, k2) == j ==> k1 == k2,
{
    let w: nat = if j >= i { (j - i) as nat } else { (j - i + n) as nat };
    lemma_seat_after_closed(i, n, w);
    lemma_mod_below_twice(i + w, n);
    assert(seat_after(i, n, w) == j);
    assert forall|k1: nat, k2: nat| k1 < n && k2 < n && #[trigger] seat_after(i, n, k1) == j
        && #[trigger] seat_after(i, n, k2) == j implies k1 == k2 by {
        lemma_seat_after_closed(i, n, k1);
        lemma_seat_after_closed(i, n, k2);
        lemma_mod_below_twice(i + k1, n);
        lemma_mod_below_twice(i + k2, n);
    }
}

proof fn lemma_seat_after_closed(i: int, n: int, k: nat)
    requires
        0 <= i < n,
    ensures
        seat_after(i, n, k) == (i + k) % n,
    decreases k,
{
    if k > 0 {
        lemma_seat_after_closed(i, n, (k - 1) as nat);
        vstd::arithmetic::div_mod::lemma_add_mod_noop_right(1, i + k - 1, n);
    } else {
        vstd::arithmetic::div_mod::lemma_small_mod(i as nat, n as nat);
    }
}

/// Sum of the players' cash.
pub open spec fn total_money(ps: Seq<PlayerView>) -> int
    decreases ps.len(),
{
    if ps.len() == 0 { 0 } else { total_money(ps.drop_last()) + ps.last().money }
}

pub proof fn lemma_total_money_update(ps: Seq<PlayerView>, i: int, p: PlayerView)
    requires
        0 <= i < ps.len(),
    ensures
        total_money(ps.update(i, p)) == total_money(ps) - ps[i].money + p.money,
    decreases ps.len(),
{
    let u = ps.update(i, p);
    if i == ps.len() - 1 {
        assert(u.drop_last() =~= ps.drop_last());
    } else {
        assert(u.drop_last() =~= ps.drop_last().update(i, p));
        lemma_total_money_update(ps.drop_last(), i, p);
    }
}

/// Moving a tile between seats changes no one's cash.
pub proof fn lemma_transfers_keep_money(s: GameView, list: Seq<usize>, fi: int, ti: int, owner: u8)
    requires
        0 <= fi < s.players.len(),
        0 <= ti < s.players.len(),
    ensures
        total_money(transfer_all(s, list, fi, ti, owner).players) == total_money(s.players),
        transfer_all(s, list, fi, ti, owner).players.len() == s.players.len(),
    decreases list.len(),
{
    if list.len() > 0 {
        let t = list[0];
        let s1 = transfer_one(s, t, fi, ti, owner);
        let pa = s.players.update(fi, PlayerView {
            properties: crate::trading::without(s.players[fi].properties, t),
            ..s.players[fi]
        });
        lemma_total_money_update(s.players, fi, pa[fi]);
        lemma_total_money_update(pa, ti, PlayerView { properties: pa[ti].properties.push(t), ..pa[ti] });
        lemma_transfers_keep_money(s1, list.drop_first(), fi, ti, owner);
    }
}

/// A completed trade moves cash between the two players but creates or
/// destroys none: the players' total cash is the same before and after.
pub proof fn law_trade_conserves_money(s: GameView, offer: TradeOffer)
    requires
        trade_outcome(s, offer) == TradeResult::Completed,
        trade_in_range(s, offer),
    ensures
        total_money(after_trade(s, offer).players) == total_money(s.players),
{
    lemma_find_id_found(s.players, offer.from_player);
    lemma_find_id_found(s.players, offer.to_player);
    let fi = find_id(s.players, offer.from_player).unwrap();
    let ti = find_id(s.players, offer.to_player).unwrap();
    let om = offer.offered_money;
    let rm = offer.requested_money;
    let ps = s.players;
    let m1 = ps.update(fi, ps[fi].with_money((ps[fi].money - om) as u32));
    let m2 = m1.update(ti, m1[ti].with_money((m1[ti].money + om) as u32));
    let m3 = m2.update(ti, m2[ti].with_money((m2[ti].money - rm) as u32));
    let m4 = m3.update(fi, m3[fi].with_money((m3[fi].money + rm) as u32));
    assert(find_id(s.players, offer.from_player) == Some(fi));
    assert(find_id(s.players, offer.to_player) == Some(ti));
    crate::trading::lemma_issue_not_completed(s.tiles, offer.offered_properties@, offer.from_player);
    crate::trading::lemma_issue_not_completed(s.tiles, offer.requested_properties@, offer.to_player);
    assert(crate::trading::list_issue(s.tiles, offer.offered_properties@, offer.from_player) is None);
    assert(crate::trading::list_issue(s.tiles, offer.requested_properties@, offer.to_player) is None);
    assert(ps[fi].money >= om && ps[ti].money >= rm);
    assert(m2[ti].money >= rm);
    lemma_total_money_update(ps, fi, m1[fi]);
    lemma_total_money_update(m1, ti, m2[ti]);
    lemma_total_money_update(m2, ti, m3[ti]);
    lemma_total_money_update(m3, fi, m4[fi]);
    assert(players_after_payment(ps, fi, ti, om, rm) == m4);
    let s1 = GameView { players: m4, ..s };
    lemma_transfers_keep_money(s1, offer.offered_properties@, fi, ti, offer.to_player);
    let s2 = transfer_all(s1, offer.offered_properties@, fi, ti, offer.to_player);
    lemma_transfers_keep_money(s2, offer.requested_properties@, ti, fi, offer.from_player);
}


/// Houses standing on the board (a hotel counts as none).
pub open spec fn house_weight(t: Tile) -> int {
    match t {
        Tile::Property(p) => if p.houses < 5 { p.houses as int } else { 0 },
        _ => 0,
    }
}

/// Hotels standing on the board.
pub open spec fn hotel_weight(t: Tile) -> int {
    match t {
        Tile::Property(p) => if p.houses == 5 { 1 } else { 0 },
        _ => 0,
    }
}

pub open spec fn houses_on_board(tiles: Seq<Tile>) -> int
    decreases tiles.len(),
{
    if tiles.len() == 0 { 0 } else { houses_on_board(tiles.drop_last()) + house_weight(tiles.last()) }
}

pub open spec fn hotels_on_board(tiles: Seq<Tile>) -> int
    decreases tiles.len(),
{
    if tiles.len() == 0 { 0 } else { hotels_on_board(tiles.drop_last()) + hotel_weight(tiles.last()) }
}

pub proof fn lemma_stock_update(tiles: Seq<Tile>, i: int, t: Tile)
    requires
        0 <= i < tiles.len(),
    ensures
        houses_on_board(tiles.update(i, t)) == houses_on_board(tiles) - house_weight(tiles[i]) + house_weight(t),
        hotels_on_board(tiles.update(i, t)) == hotels_on_board(tiles) - hotel_weight(tiles[i]) + hotel_weight(t),
    decreases tiles.len(),
{
    let u = tiles.update(i, t);
    if i == tiles.len() - 1 {
        assert(u.drop_last() =~= tiles.drop_last());
    } else {
        assert(u.drop_last() =~= tiles.drop_last().update(i, t));
        lemma_stock_update(tiles.drop_last(), i, t);
    }
}

/// Building keeps the bank's stock of buildings: houses in the supply plus
/// houses on the board, and hotels in the supply plus hotels on the board,
/// are the same before and after a build.
pub proof fn law_build_keeps_stock(s: GameView, tile_index: int)
    requires
        s.has_current(),
        0 <= tile_index < s.tiles.len(),
        build_outcome(s, tile_index) == BuildResult::Built,
        s.tiles[tile_index]->Property_0.houses >= 4 ==> s.houses_remaining + 4 <= u8::MAX,
    ensures
        after_build(s, tile_index).houses_remaining + houses_on_board(after_build(s, tile_index).tiles)
            == s.houses_remaining + houses_on_board(s.tiles),
        after_build(s, tile_index).hotels_remaining + hotels_on_board(after_build(s, tile_index).tiles)
            == s.hotels_remaining + hotels_on_board(s.tiles),
{
    let p = s.tiles[tile_index]->Property_0;
    lemma_stock_update(s.tiles, tile_index, Tile::Property(PropertyTile { houses: (p.houses + 1) as u8, ..p }));
}

/// Selling keeps the bank's stock of buildings, as building does (on a
/// property with at most a hotel, the most a property can carry).
pub proof fn law_sell_keeps_stock(s: GameView, tile_index: int)
    requires
        s.has_current(),
        0 <= tile_index < s.tiles.len(),
        sell_outcome(s, tile_index) == BuildResult::Built,
        crate::buildings::sell_in_range(s, tile_index),
        s.tiles[tile_index]->Property_0.houses <= 5,
    ensures
        after_sell(s, tile_index).houses_remaining + houses_on_board(after_sell(s, tile_index).tiles)
            == s.houses_remaining + houses_on_board(s.tiles),
        after_sell(s, tile_index).hotels_remaining + hotels_on_board(after_sell(s, tile_index).tiles)
            == s.hotels_remaining + hotels_on_board(s.tiles),
{
    let p = s.tiles[tile_index]->Property_0;
    lemma_stock_update(s.tiles, tile_index, Tile::Property(PropertyTile { houses: (p.houses - 1) as u8, ..p }));
}

/// Selling right after building on the same property undoes the build,
/// except that the builder gets back only half the building cost.
pub proof fn law_sell_undoes_build(s: GameView, tile_index: int)
    requires
        s.has_current(),
        0 <= tile_index < s.tiles.len(),
        build_outcome(s, tile_index) == BuildResult::Built,
        s.tiles[tile_index]->Property_0.houses >= 4 ==> s.houses_remaining + 4 <= u8::MAX,
        crate::buildings::sells_evenly(after_build(s, tile_index).tiles, tile_index,
            s.tiles[tile_index]->Property_0.color_group),
    ensures
        sell_outcome(after_build(s, tile_index), tile_index) == BuildResult::Built,
        after_sell(after_build(s, tile_index), tile_index) == s.with_player(
            s.current_player_index as int,
            s.current().with_money(
                (s.current().money - s.tiles[tile_index]->Property_0.building_cost
                    + s.tiles[tile_index]->Property_0.building_cost / 2) as u32,
            ),
        ),
{
    let b = after_build(s, tile_index);
    let a = after_sell(b, tile_index);
    let e = s.with_player(
        s.current_player_index as int,
        s.current().with_money(
            (s.current().money - s.tiles[tile_index]->Property_0.building_cost
                + s.tiles[tile_index]->Property_0.building_cost / 2) as u32,
        ),
    );
    assert(a.tiles =~= e.tiles);
    assert(a.players =~= e.players);
    assert(a =~= e);
}

/// Lifting a mortgage right after taking it restores the tile; the owner
/// ends with a tenth of the price less (the interest). An owner who cannot
/// pay that tenth is refused for want of funds.
pub proof fn law_unmortgage_undoes_mortgage(s: GameView, tile_index: int)
    requires
        s.has_current(),
        0 <= tile_index < s.tiles.len(),
        mortgage_outcome(s, tile_index) is Mortgaged,
        s.current().money + s.tiles[tile_index].price() / 2 <= u32::MAX,
    ensures ({
        let t = s.tiles[tile_index];
        let m = s.with_player(
            s.current_player_index as int,
            s.current().with_money((s.current().money + t.price() / 2) as u32),
        ).with_tile(tile_index, t.with_mortgaged(true));
        let cost = (t.price() / 2 + t.price() / 10) as u32;
        &&& s.current().money >= t.price() / 10 ==> {
            &&& unmortgage_outcome(m, tile_index) == (MortgageResult::Unmortgaged { cost })
            &&& m.with_player(s.current_player_index as int, m.current().with_money((m.current().money - cost) as u32))
                    .with_tile(tile_index, m.tiles[tile_index].with_mortgaged(false))
                == s.with_player(
                    s.current_player_index as int,
                    s.current().with_money((s.current().money - t.price() / 10) as u32),
                )
        }
        &&& s.current().money < t.price() / 10 ==> unmortgage_outcome(m, tile_index) == MortgageResult::InsufficientFunds
    }),
{
    let t = s.tiles[tile_index];
    let m = s.with_player(
        s.current_player_index as int,
        s.current().with_money((s.current().money + t.price() / 2) as u32),
    ).with_tile(tile_index, t.with_mortgaged(true));
    let cost = (t.price() / 2 + t.price() / 10) as u32;
    if s.current().money >= t.price() / 10 {
        let a = m.with_player(s.current_player_index as int, m.current().with_money((m.current().money - cost) as u32))
            .with_tile(tile_index, m.tiles[tile_index].with_mortgaged(false));
        let e = s.with_player(
            s.current_player_index as int,
            s.current().with_money((s.current().money - t.price() / 10) as u32),
        );
        assert(m.tiles[tile_index].with_mortgaged(false) == t);
        assert(a.tiles =~= e.tiles);
        assert(a.players =~= e.players);
        assert(a =~= e);
    }
}

/// A player declared bankrupt is marked bankrupt and is left with no cash
/// and no properties, whoever the creditor is.
pub proof fn law_bankrupt_player_keeps_nothing(s: GameView, player_id: u8, creditor: Option<u8>)
    requires
        is_insolvent(s, player_id),
        crate::bankruptcy::bankruptcy_settleable(s, player_id, creditor),
    ensures ({
        let bi = find_id(s.players, player_id).unwrap();
        let a = after_bankruptcy(s, player_id, creditor);
        &&& a.players[bi].bankrupt
        &&& a.players[bi].money == 0
        &&& a.players[bi].properties.len() == 0
    }),
{
    lemma_find_id_found(s.players, player_id);
    if let Some(c) = creditor {
        lemma_find_id_found(s.players, c);
    }
}

/// Going bankrupt to the bank returns every property of the bankrupt player
/// to the bank: unowned, unbuilt and unmortgaged.
pub proof fn law_bank_takes_back_properties(s: GameView, player_id: u8, k: int)
    requires
        is_insolvent(s, player_id),
        crate::bankruptcy::bankruptcy_settleable(s, player_id, None),
        0 <= k < s.players[find_id(s.players, player_id).unwrap()].properties.len(),
    ensures ({
        let bi = find_id(s.players, player_id).unwrap();
        let t = s.players[bi].properties[k] as int;
        let a = after_bankruptcy(s, player_id, None);
        &&& a.tiles[t].owner() is None
        &&& !a.tiles[t].is_mortgaged()
        &&& (a.tiles[t] matches Tile::Property(p) ==> p.houses == 0)
    }),
{
    lemma_find_id_found(s.players, player_id);
    let bi = find_id(s.players, player_id).unwrap();
    let t = s.players[bi].properties[k] as int;
    assert(crate::bankruptcy::lists(s.players[bi].properties, t));
}

/// The game ends exactly when one player is left standing, and that player wins.
pub proof fn law_game_over_names_last_player(s: GameView, player_id: u8, creditor: Option<u8>)
    requires
        is_insolvent(s, player_id),
    ensures
        bankruptcy_outcome(s, player_id, creditor) matches BankruptcyResult::GameOver { winner } ==> {
            let a = after_bankruptcy(s, player_id, creditor);
            &&& a.game_over
            &&& a.winner == Some(winner)
            &&& a.active().len() == 1
            &&& a.active()[0].id == winner
        },
        bankruptcy_outcome(s, player_id, creditor) is Bankrupt ==>
            after_bankruptcy(s, player_id, creditor).active().len() != 1,
{
}

/// What a player can raise by liquidating is at least their cash.
pub proof fn law_liquidation_covers_cash(s: GameView, player_id: u8)
    ensures
        find_id(s.players, player_id) matches Some(i) ==> liquidation_spec(s, player_id) >= s.players[i].money,
{
    lemma_find_id_found(s.players, player_id);
    if let Some(i) = find_id(s.players, player_id) {
        lemma_holdings_nonneg(s.tiles, s.players[i].properties);
    }
}

/// A move keeps the player on the board (or puts them in jail), and pays the
/// Go salary exactly when Go is passed or landed on.
pub proof fn law_move_stays_on_board(s: GameView, roll: DiceRoll, go_salary: u32)
    requires
        advance_in_range(s, roll, go_salary),
    ensures ({
        let p = s.current();
        let q = after_advance(s, roll, go_salary).current();
        let new_pos = target_position(p.position, roll, s.tiles.len());
        &&& q.position < s.tiles.len() || (q.position == JAIL_POSITION && q.in_jail)
        &&& q.money == if crate::movement::passes_go(p.position, new_pos) { p.money + go_salary } else { p.money as int }
    }),
{
}

/// A mortgaged tile collects no rent.
pub proof fn law_mortgaged_tiles_collect_no_rent(tiles: Seq<Tile>, tile_index: int, roll: DiceRoll)
    requires
        0 <= tile_index < tiles.len(),
        tiles[tile_index].is_mortgaged(),
    ensures
        rent_due(tiles, tile_index, roll) == 0,
{
}

/// An accepted bid always raises the highest bid.
pub proof fn law_bids_only_rise(s: GameView, player_id: u8, bid: u32)
    requires
        crate::buying::bid_accepted(s, player_id, bid),
    ensures
        bid > s.turn_phase->highest_bid,
{
}

/// Reading back a frame gives the payload: its header holds the payload's
/// length and the payload follows the header unchanged.
pub proof fn law_frame_round_trip(payload: Seq<u8>)
    requires
        payload.len() <= u32::MAX,
    ensures ({
        let f = crate::network::le_bytes(payload.len() as u32) + payload;
        &&& crate::network::le_value([f[0], f[1], f[2], f[3]]) == payload.len()
        &&& f.skip(4) == payload
    }),
{
    let f = crate::network::le_bytes(payload.len() as u32) + payload;
    crate::network::lemma_frame_header_round_trip(payload.len() as u32);
    assert(f.skip(4) =~= payload);
}


/// A message that the engine refuses leaves the lobby as it was. The one
/// exception: accepting a pending trade before the game started drops it.
pub proof fn law_refusals_change_nothing(l: LobbyView, pid: Option<u8>, msg: ClientMessage, roll: DiceRoll)
    requires
        engine_step(l, pid, msg, roll).result is Err,
        !(msg is AcceptTrade && l.pending_trade is Some),
    ensures
        engine_step(l, pid, msg, roll).after == l,
{
}

/// A turn action of anyone but the player whose turn it is gets "not your
/// turn" and changes nothing.
pub proof fn law_only_the_current_player_acts(l: LobbyView, id: u8, msg: ClientMessage, roll: DiceRoll)
    requires
        l.game matches Some(g) && g.current().id != id,
        msg is RollDice || msg is BuyProperty || msg is DeclineProperty || msg is PayRent
            || msg is PayJailFine || msg is UseJailCard || msg is RollForJail || msg is BuildHouse
            || msg is SellHouse || msg is Mortgage || msg is Unmortgage || msg is EndTurn,
    ensures
        engine_step(l, Some(id), msg, roll) == refuse(l, EngineError::NotYourTurn),
{
}


/// The lobby never seats more than `MAX_PLAYERS`: no message takes it past the limit.
pub proof fn law_lobby_never_overfills(l: LobbyView, pid: Option<u8>, msg: ClientMessage, roll: DiceRoll)
    requires
        l.players.len() <= MAX_PLAYERS,
    ensures
        engine_step(l, pid, msg, roll).after.players.len() <= MAX_PLAYERS,
{
}


/// The server holds the game and the players see it: whenever a message
/// changes the game, the last thing it sends is the new state, to everyone.
pub proof fn law_changes_reach_everyone(l: LobbyView, pid: Option<u8>, msg: ClientMessage, roll: DiceRoll)
    requires
        engine_step(l, pid, msg, roll).after.game != l.game,
    ensures
        engine_step(l, pid, msg, roll).result matches Ok(StepView::Done { notes, .. })
            && notes.len() > 0
            && notes.last() == (Recipient::Everyone, Note::StateUpdate { state: engine_step(l, pid, msg, roll).after.game.unwrap() }),
{
}


/// Every colour group is built evenly: two streets of one group differ by
/// at most one building.
pub open spec fn groups_even(tiles: Seq<Tile>) -> bool {
    forall|i: int, j: int| 0 <= i < tiles.len() && 0 <= j < tiles.len()
        && (#[trigger] tiles[i]) is Property && (#[trigger] tiles[j]) is Property
        && tiles[i]->Property_0.color_group == tiles[j]->Property_0.color_group
        ==> tiles[i]->Property_0.houses <= tiles[j]->Property_0.houses + 1
}

/// Building keeps every colour group even, and so does selling.
pub proof fn law_building_keeps_groups_even(s: GameView, tile_index: int)
    requires
        groups_even(s.tiles),
        0 <= tile_index < s.tiles.len(),
    ensures
        build_outcome(s, tile_index) == BuildResult::Built ==> groups_even(after_build(s, tile_index).tiles),
        sell_outcome(s, tile_index) == BuildResult::Built ==> groups_even(after_sell(s, tile_index).tiles),
{
    let p = s.tiles[tile_index]->Property_0;
    if build_outcome(s, tile_index) == BuildResult::Built {
        let a = after_build(s, tile_index).tiles;
        assert forall|i: int, j: int| 0 <= i < a.len() && 0 <= j < a.len()
            && (#[trigger] a[i]) is Property && (#[trigger] a[j]) is Property
            && a[i]->Property_0.color_group == a[j]->Property_0.color_group
            implies a[i]->Property_0.houses <= a[j]->Property_0.houses + 1 by {
            assert(crate::buildings::in_group_at_least(s.tiles[i], p.color_group, p.houses));
            assert(crate::buildings::in_group_at_least(s.tiles[j], p.color_group, p.houses));
            assert(s.tiles[i] is Property && s.tiles[j] is Property);
        }
    }
    if sell_outcome(s, tile_index) == BuildResult::Built {
        let a = after_sell(s, tile_index).tiles;
        assert forall|i: int, j: int| 0 <= i < a.len() && 0 <= j < a.len()
            && (#[trigger] a[i]) is Property && (#[trigger] a[j]) is Property
            && a[i]->Property_0.color_group == a[j]->Property_0.color_group
            implies a[i]->Property_0.houses <= a[j]->Property_0.houses + 1 by {
            assert(crate::buildings::in_group_at_most(s.tiles[i], p.color_group, p.houses));
            assert(crate::buildings::in_group_at_most(s.tiles[j], p.color_group, p.houses));
            assert(s.tiles[i] is Property && s.tiles[j] is Property);
        }
    }
}


/// How often tile index `t` occurs in the list `props`.
pub open spec fn occurrences(props: Seq<usize>, t: int) -> nat
    decreases props.len(),
{
    if props.len() == 0 {
        0
    } else {
        occurrences(props.drop_last(), t) + if props.last() as int == t { 1nat } else { 0nat }
    }
}

proof fn lemma_holdings_update(tiles: Seq<Tile>, props: Seq<usize>, t: int, x: Tile)
    requires
        0 <= t < tiles.len(),
        indices_on_board(tiles, props),
    ensures
        holdings_value(tiles.update(t, x), props)
            == holdings_value(tiles, props) + occurrences(props, t) * (asset_value(x) - asset_value(tiles[t])),
    decreases props.len(),
{
    if props.len() > 0 {
        assert(indices_on_board(tiles, props.drop_last())) by {
            assert forall|k: int| 0 <= k < props.drop_last().len() implies #[trigger] props.drop_last()[k] < tiles.len() by {
                assert(props.drop_last()[k] == props[k]);
            }
        }
        assert(props.last() == props[props.len() - 1]);
        lemma_holdings_update(tiles, props.drop_last(), t, x);
        let o = occurrences(props.drop_last(), t) as int;
        let d = asset_value(x) - asset_value(tiles[t]);
        let j = props.last() as int;
        assert(0 <= j < tiles.len());
        let u = tiles.update(t, x);
        assert(holdings_value(u, props) == holdings_value(u, props.drop_last()) + asset_value(u[j]));
        assert(holdings_value(tiles, props) == holdings_value(tiles, props.drop_last()) + asset_value(tiles[j]));
        if j == t {
            assert(u[j] == x);
            assert(occurrences(props, t) == o + 1);
            assert((o + 1) * d == o * d + d) by (nonlinear_arith);
            assert(holdings_value(u, props) == holdings_value(tiles, props) + (o + 1) * d);
        } else {
            assert(u[j] == tiles[j]);
            assert(occurrences(props, t) == o);
            assert(holdings_value(u, props) == holdings_value(tiles, props) + o * d);
        }
    } else {
        let d = asset_value(x) - asset_value(tiles[t]);
        assert(0 * d == 0);
    }
}

proof fn lemma_current_found_again(s: GameView, p: PlayerView)
    requires
        s.has_current(),
        find_id(s.players, s.current().id) == Some(s.current_player_index as int),
        p.id == s.current().id,
    ensures
        find_id(s.players.update(s.current_player_index as int, p), p.id) == Some(s.current_player_index as int),
{
    let ci = s.current_player_index as int;
    let ps = s.players.update(ci, p);
    lemma_find_id_found(s.players, p.id);
    assert forall|j: int| 0 <= j < ci implies ps[j].id != p.id by {
        assert(ps[j] == s.players[j]);
    }
    lemma_find_id_first(ps, p.id, ci);
}

/// Mortgaging a tile, or selling a building, turns it into cash at exactly
/// the value that liquidation counts for it, so what the player can raise
/// is unchanged (for a tile that the player lists once).
pub proof fn law_liquidation_kept_by_mortgage_and_sale(s: GameView, t: usize)
    requires
        s.has_current(),
        t < s.tiles.len(),
        find_id(s.players, s.current().id) == Some(s.current_player_index as int),
        indices_on_board(s.tiles, s.current().properties),
        occurrences(s.current().properties, t as int) == 1,
    ensures
        mortgage_outcome(s, t as int) is Mortgaged
            && s.current().money + crate::buildings::mortgage_value(s.tiles[t as int]) <= u32::MAX
            ==> liquidation_spec(crate::engine::mortgaged(s, t), s.current().id) == liquidation_spec(s, s.current().id),
        sell_outcome(s, t as int) == BuildResult::Built && crate::buildings::sell_in_range(s, t as int)
            && s.tiles[t as int]->Property_0.houses <= 5
            ==> liquidation_spec(after_sell(s, t as int), s.current().id) == liquidation_spec(s, s.current().id),
{
    let ci = s.current_player_index as int;
    let p = s.current();
    let tile = s.tiles[t as int];
    if mortgage_outcome(s, t as int) is Mortgaged && p.money + crate::buildings::mortgage_value(tile) <= u32::MAX {
        let value = crate::buildings::mortgage_value(tile);
        let q = p.with_money((p.money + value) as u32);
        let m = crate::engine::mortgaged(s, t);
        lemma_current_found_again(s, q);
        lemma_holdings_update(s.tiles, p.properties, t as int, tile.with_mortgaged(true));
        assert(m.players[ci] == q);
        assert(m.tiles == s.tiles.update(t as int, tile.with_mortgaged(true)));
    }
    if sell_outcome(s, t as int) == BuildResult::Built && crate::buildings::sell_in_range(s, t as int)
        && s.tiles[t as int]->Property_0.houses <= 5 {
        let pt = tile->Property_0;
        let a = after_sell(s, t as int);
        let q = p.with_money((p.money + pt.building_cost / 2) as u32);
        let nt = Tile::Property(PropertyTile { houses: (pt.houses - 1) as u8, ..pt });
        lemma_current_found_again(s, q);
        lemma_holdings_update(s.tiles, p.properties, t as int, nt);
        let h = pt.houses as int;
        let c = (pt.building_cost / 2) as int;
        assert(c * h == c * (h - 1) + c) by (nonlinear_arith);
        assert(c * 1 == c);
        assert(c * 5 == c * 4 + c);
        assert(asset_value(nt) == asset_value(tile) - c);
        assert(a.players[ci] == q);
        assert(a.tiles == s.tiles.update(t as int, nt));
    }
}

} // verus!
