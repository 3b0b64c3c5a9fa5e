use vstd::prelude::*;
use crate::board::{Tile, PropertyTile, RailroadTile, UtilityTile};
use crate::player::{Player, PlayerView};
use crate::state::{GameState, GameView, find_id, find_player_index, lemma_find_id_found};

verus! {

#[derive(Debug, Clone, Copy, PartialEq, Eq, Structural)]
pub enum BankruptcyResult {
    /// Player successfully declared bankrupt, assets transferred
    Bankrupt { eliminated: u8 },
    /// Only one player remains: they win
    GameOver { winner: u8 },
    /// Player is not actually insolvent
    NotInsolvent,
}

/// What selling off tile `t` raises: half the price when it is not mortgaged,
/// plus half the building cost per building (a hotel stands for five: itself
/// and the four houses it replaced, each sold back at half its cost).
pub open spec fn asset_value(t: Tile) -> int {
    match t {
        Tile::Property(p) => {
            (if !p.mortgaged { p.price / 2 } else { 0 }) + (if 0 < p.houses < 5 {
                (p.building_cost / 2) * p.houses
            } else if p.houses == 5 {
                (p.building_cost / 2) * 5
            } else {
                0
            })
        },
        Tile::Railroad(r) => if !r.mortgaged { (r.price / 2) as int } else { 0 },
        Tile::Utility(u) => if !u.mortgaged { (u.price / 2) as int } else { 0 },
        _ => 0,
    }
}

/// Total of `asset_value` over the listed tile indices (repeats count again).
pub open spec fn holdings_value(tiles: Seq<Tile>, props: Seq<usize>) -> int
    decreases props.len(),
{
    if props.len() == 0 {
        0
    } else {
        holdings_value(tiles, props.drop_last()) + asset_value(tiles[props.last() as int])
    }
}

/// Every listed tile index is on the board.
pub open spec fn indices_on_board(tiles: Seq<Tile>, props: Seq<usize>) -> bool {
    forall|k: int| 0 <= k < props.len() ==> #[trigger] props[k] < tiles.len()
}

/// Cash plus the liquidation value of every listed property of the first
/// player with id `player_id`; 0 when there is none.
pub open spec fn liquidation_spec(s: GameView, player_id: u8) -> int {
    match find_id(s.players, player_id) {
        Some(i) => s.players[i].money + holdings_value(s.tiles, s.players[i].properties),
        None => 0,
    }
}

/// Liquidation of `player_id` stays on the board and within `u32`.
pub open spec fn liquidation_computable(s: GameView, player_id: u8) -> bool {
    find_id(s.players, player_id) matches Some(i) ==> {
        &&& indices_on_board(s.tiles, s.players[i].properties)
        &&& liquidation_spec(s, player_id) <= u32::MAX
    }
}

pub proof fn lemma_asset_value_nonneg(t: Tile)
    ensures
        asset_value(t) >= 0,
{
    match t {
        Tile::Property(p) => {
            assert((p.building_cost / 2) * p.houses >= 0) by (nonlinear_arith);
        },
        _ => {},
    }
}

/// A prefix of the holdings is worth no more than the whole.
pub proof fn lemma_holdings_prefix(tiles: Seq<Tile>, props: Seq<usize>, k: int)
    requires
        0 <= k <= props.len(),
    ensures
        0 <= holdings_value(tiles, props.take(k)) <= holdings_value(tiles, props),
    decreases props.len() - k,
{
    if k == props.len() {
        assert(props.take(k) =~= props);
        lemma_holdings_nonneg(tiles, props);
    } else {
        lemma_holdings_prefix(tiles, props, k + 1);
        assert(props.take(k + 1).drop_last() =~= props.take(k));
        assert(props.take(k + 1).last() == props[k]);
        lemma_asset_value_nonneg(tiles[props[k] as int]);
        lemma_holdings_nonneg(tiles, props.take(k));
    }
}

pub proof fn lemma_holdings_nonneg(tiles: Seq<Tile>, props: Seq<usize>)
    ensures
        holdings_value(tiles, props) >= 0,
    decreases props.len(),
{
    if props.len() > 0 {
        lemma_holdings_nonneg(tiles, props.drop_last());
        lemma_asset_value_nonneg(tiles[props.last() as int]);
    }
}

/// Total liquidation value a player can raise: current cash, half the value
/// of every unmortgaged property and half the value of the buildings.
pub fn liquidation_value(state: &GameState, player_id: u8) -> (v: u32)
    requires
        liquidation_computable(state@, player_id),
    ensures
        v == liquidation_spec(state@, player_id),
{
    proof { lemma_find_id_found(state@.players, player_id); }
    let pi = match find_player_index(&state.players, player_id) {
        Some(i) => i,
        None => return 0,
    };
    let player = &state.players[pi];
    let ghost tiles = state@.tiles;
    let ghost props = player.properties@;

    let mut total = player.money;
    let mut k: usize = 0;
    while k < player.properties.len()
        invariant
            tiles == state@.tiles,
            props == player.properties@,
            props == state@.players[pi as int].properties,
            indices_on_board(tiles, props),
            player.money + holdings_value(tiles, props) <= u32::MAX,
            k <= props.len(),
            total == player.money + holdings_value(tiles, props.take(k as int)),
        decreases props.len() - k,
    {
        let tile_index = player.properties[k];
        proof {
            assert(props.take(k + 1).drop_last() =~= props.take(k as int));
            lemma_holdings_prefix(tiles, props, k + 1);
            lemma_holdings_prefix(tiles, props, k as int);
            lemma_asset_value_nonneg(tiles[tile_index as int]);
        }
        match &state.board.tiles[tile_index] {
            Tile::Property(p) => {
                let ghost before = total;
                if !p.mortgaged {
                    total += p.price / 2;
                }
                // Sell back buildings at half price
                if p.houses > 0 && p.houses < 5 {
                    assert((p.building_cost / 2) * (p.houses as u32) == (p.building_cost / 2) * p.houses);
                    total += (p.building_cost / 2) * p.houses as u32;
                } else if p.houses == 5 {
                    total += (p.building_cost / 2) * 5; // a hotel and the four houses under it
                }
            },
            Tile::Railroad(r) => {
                if !r.mortgaged { total += r.price / 2; }
            },
            Tile::Utility(u) => {
                if !u.mortgaged { total += u.price / 2; }
            },
            _ => {},
        }
        k += 1;
    }
    proof { assert(props.take(props.len() as int) =~= props); }
    total
}

/// Check if a player cannot pay a debt even after full liquidation.
pub fn is_bankrupt(state: &GameState, player_id: u8, debt: u32) -> (b: bool)
    requires
        liquidation_computable(state@, player_id),
    ensures
        b == (liquidation_spec(state@, player_id) < debt),
{
    liquidation_value(state, player_id) < debt
}

/// Tile `t` as the creditor `c` takes it over: new owner, buildings lost.
pub open spec fn seized_by(t: Tile, c: u8) -> Tile {
    match t {
        Tile::Property(p) => Tile::Property(PropertyTile { owner: Some(c), houses: 0, ..p }),
        Tile::Railroad(r) => Tile::Railroad(RailroadTile { owner: Some(c), ..r }),
        Tile::Utility(u) => Tile::Utility(UtilityTile { owner: Some(c), ..u }),
        _ => t,
    }
}

/// Tile `t` as the bank takes it back: unowned, unbuilt, unmortgaged.
pub open spec fn returned_to_bank(t: Tile) -> Tile {
    match t {
        Tile::Property(p) => Tile::Property(PropertyTile { owner: None, houses: 0, mortgaged: false, ..p }),
        Tile::Railroad(r) => Tile::Railroad(RailroadTile { owner: None, mortgaged: false, ..r }),
        Tile::Utility(u) => Tile::Utility(UtilityTile { owner: None, mortgaged: false, ..u }),
        _ => t,
    }
}

/// Tile index `i` occurs in the list `props`.
pub open spec fn lists(props: Seq<usize>, i: int) -> bool {
    exists|k: int| 0 <= k < props.len() && #[trigger] props[k] as int == i
}

pub proof fn lemma_lists_step(props: Seq<usize>, k: int, i: int)
    requires
        0 <= k < props.len(),
    ensures
        lists(props.take(k + 1), i) == (lists(props.take(k), i) || props[k] as int == i),
{
    if lists(props.take(k + 1), i) {
        let w = choose|w: int| 0 <= w < k + 1 && #[trigger] props.take(k + 1)[w] as int == i;
        if w < k {
            assert(props.take(k)[w] as int == i);
        }
    }
    if lists(props.take(k), i) {
        let w = choose|w: int| 0 <= w < k && #[trigger] props.take(k)[w] as int == i;
        assert(props.take(k + 1)[w] as int == i);
    }
    if props[k] as int == i {
        assert(props.take(k + 1)[k] as int == i);
    }
}

/// The board after the listed tiles went to `creditor` (the bank for `None`).
pub open spec fn tiles_after_bankruptcy(tiles: Seq<Tile>, props: Seq<usize>, creditor: Option<u8>) -> Seq<Tile> {
    Seq::new(tiles.len(), |i: int| if lists(props, i) {
        match creditor {
            Some(c) => seized_by(tiles[i], c),
            None => returned_to_bank(tiles[i]),
        }
    } else {
        tiles[i]
    })
}

/// The first player with id `player_id` exists and has no money or is
/// already bankrupt.
pub open spec fn is_insolvent(s: GameView, player_id: u8) -> bool {
    find_id(s.players, player_id) matches Some(i) && (s.players[i].money == 0 || s.players[i].bankrupt)
}

/// The players after `player_id` went bankrupt to `creditor`, before the
/// win check: the creditor takes the cash and the property list (in that
/// order of steps, so a player who is their own creditor ends with nothing),
/// and the bankrupt player is left with nothing and marked bankrupt.
pub open spec fn players_after_bankruptcy(ps: Seq<PlayerView>, bi: int, creditor: Option<u8>) -> Seq<PlayerView> {
    let props = ps[bi].properties;
    match creditor {
        Some(c) => {
            let ci = find_id(ps, c).unwrap();
            let p1 = ps.update(ci, ps[ci].with_money((ps[ci].money + ps[bi].money) as u32));
            let p2 = p1.update(bi, p1[bi].with_money(0));
            let p3 = p2.update(ci, PlayerView { properties: p2[ci].properties + props, ..p2[ci] });
            p3.update(bi, PlayerView { properties: Seq::empty(), bankrupt: true, ..p3[bi] })
        },
        None => ps.update(bi, PlayerView { properties: Seq::empty(), money: 0, bankrupt: true, ..ps[bi] }),
    }
}

/// The state after `player_id` went bankrupt to `creditor`, win check included.
pub open spec fn after_bankruptcy(s: GameView, player_id: u8, creditor: Option<u8>) -> GameView {
    let bi = find_id(s.players, player_id).unwrap();
    let s1 = GameView {
        players: players_after_bankruptcy(s.players, bi, creditor),
        tiles: tiles_after_bankruptcy(s.tiles, s.players[bi].properties, creditor),
        ..s
    };
    if s1.active().len() == 1 {
        GameView { game_over: true, winner: Some(s1.active()[0].id), ..s1 }
    } else {
        s1
    }
}

/// What declaring `player_id` bankrupt to `creditor` answers.
pub open spec fn bankruptcy_outcome(s: GameView, player_id: u8, creditor: Option<u8>) -> BankruptcyResult {
    if !is_insolvent(s, player_id) {
        BankruptcyResult::NotInsolvent
    } else {
        let after = after_bankruptcy(s, player_id, creditor);
        if after.active().len() == 1 {
            BankruptcyResult::GameOver { winner: after.active()[0].id }
        } else {
            BankruptcyResult::Bankrupt { eliminated: player_id }
        }
    }
}

/// Declaring bankruptcy does not index off the board, unwrap a missing
/// creditor or overflow the creditor's cash.
pub open spec fn bankruptcy_settleable(s: GameView, player_id: u8, creditor: Option<u8>) -> bool {
    is_insolvent(s, player_id) ==> {
        let bi = find_id(s.players, player_id).unwrap();
        &&& indices_on_board(s.tiles, s.players[bi].properties)
        &&& creditor matches Some(c) ==> (find_id(s.players, c) matches Some(ci)
                && s.players[ci].money + s.players[bi].money <= u32::MAX)
    }
}

/// Declare a player bankrupt: transfer all assets to the creditor (or to the
/// bank for `None`). Answers `GameOver` if only one active player remains.
pub fn declare_bankrupt(state: &mut GameState, player_id: u8, creditor: Option<u8>) -> (r: BankruptcyResult)
    requires
        bankruptcy_settleable(old(state)@, player_id, creditor),
    ensures
        r == bankruptcy_outcome(old(state)@, player_id, creditor),
        r is NotInsolvent ==> final(state)@ == old(state)@,
        !(r is NotInsolvent) ==> final(state)@ == after_bankruptcy(old(state)@, player_id, creditor),
{
    let ghost s0 = state@;
    proof { lemma_find_id_found(state@.players, player_id); }
    // Check the player is actually insolvent
    let bankrupt_index = match find_player_index(&state.players, player_id) {
        Some(i) => i,
        None => return BankruptcyResult::NotInsolvent,
    };
    if !(state.players[bankrupt_index].money == 0 || state.players[bankrupt_index].bankrupt) {
        return BankruptcyResult::NotInsolvent;
    }
    let bi = bankrupt_index;
    let ghost props = s0.players[bi as int].properties;
    let properties = copy_indices(&state.players[bi].properties);
    let n = properties.len();

    match creditor {
        Some(creditor_id) => {
            proof { lemma_find_id_found(state@.players, creditor_id); }
            // Transfer all money to the creditor
            let money = state.players[bi].money;
            let creditor_index = match find_player_index(&state.players, creditor_id) {
                Some(i) => i,
                None => { assert(false); 0 },
            };
            let ci = creditor_index;

            let ghost ps = s0.players;
            let ghost p1s = ps.update(ci as int, ps[ci as int].with_money((ps[ci as int].money + ps[bi as int].money) as u32));
            let ghost p2s = p1s.update(bi as int, p1s[bi as int].with_money(0));
            state.players[ci].money += money;
            proof {
                assert forall|j: int| 0 <= j < ps.len() implies state@.players[j] =~= p1s[j] by {}
                assert(state@.players =~= p1s);
            }
            state.players[bi].money = 0;
            proof {
                assert forall|j: int| 0 <= j < ps.len() implies state@.players[j] =~= p2s[j] by {}
                assert(state@.players =~= p2s);
            }
            let ghost p2 = state@.players;
            let ghost t0 = state@.tiles;

            // Transfer all properties to the creditor (buildings are lost)
            let mut k: usize = 0;
            while k < n
                invariant
                    n == properties@.len(),
                    properties@ == props,
                    indices_on_board(t0, props),
                    ci < state@.players.len(),
                    state@.players.len() == p2.len(),
                    k <= n,
                    (GameView { players: s0.players, tiles: s0.tiles, ..state@ }) == s0,
                    state@.tiles == tiles_after_bankruptcy(t0, props.take(k as int), Some(creditor_id)),
                    state@.players == p2.update(ci as int, PlayerView {
                        properties: p2[ci as int].properties + props.take(k as int),
                        ..p2[ci as int]
                    }),
                decreases n - k,
            {
                let tile_index = properties[k];
                let ghost before = state@.tiles;
                match &mut state.board.tiles[tile_index] {
                    Tile::Property(p) => {
                        p.owner = Some(creditor_id);
                        p.houses = 0; // buildings are lost
                    },
                    Tile::Railroad(r) => r.owner = Some(creditor_id),
                    Tile::Utility(u) => u.owner = Some(creditor_id),
                    _ => {},
                }
                let ghost pl_before = state@.players;
                state.players[ci].properties.push(tile_index);
                proof {
                    assert(props.take(k + 1) =~= props.take(k as int).push(tile_index));
                    assert(pl_before[ci as int].properties =~= p2[ci as int].properties + props.take(k as int));
                    assert(state@.players[ci as int].properties =~= pl_before[ci as int].properties.push(tile_index));
                    assert(state@.players[ci as int].properties =~= p2[ci as int].properties + props.take(k + 1));
                    assert forall|j: int| 0 <= j < p2.len() && j != ci implies state@.players[j] == pl_before[j] by {}
                    assert forall|i: int| 0 <= i < t0.len() implies
                        lists(props.take(k + 1), i) == (lists(props.take(k as int), i) || i == tile_index)
                    by {
                        lemma_lists_step(props, k as int, i);
                    }
                    assert(state@.tiles =~= tiles_after_bankruptcy(t0, props.take(k + 1), Some(creditor_id)));
                    assert(props.take(k + 1) =~= props.take(k as int).push(tile_index));
                    let expected = p2.update(ci as int, PlayerView {
                        properties: p2[ci as int].properties + props.take(k + 1),
                        ..p2[ci as int]
                    });
                    assert forall|j: int| 0 <= j < p2.len() implies state@.players[j] =~= expected[j] by {
                        if j != ci {
                            assert(pl_before[j] == expected[j]);
                        }
                    }
                    assert(state@.players =~= expected);
                }
                k += 1;
            }

            proof {
                assert(props.take(n as int) =~= props);
            }
            let ghost p3s = p2s.update(ci as int, PlayerView { properties: p2s[ci as int].properties + props, ..p2s[ci as int] });
            let ghost p4s = p3s.update(bi as int, PlayerView { properties: Seq::empty(), bankrupt: true, ..p3s[bi as int] });
            state.players[bi].properties.clear();
            state.players[bi].bankrupt = true;
            proof {
                assert forall|j: int| 0 <= j < ps.len() implies state@.players[j] =~= p4s[j] by {}
                assert(state@.players =~= p4s);
                assert(p4s == players_after_bankruptcy(s0.players, bi as int, creditor));
            }
        },
        None => {
            let ghost t0 = state@.tiles;
            // Bankrupt to the bank: properties return to unowned
            let mut k: usize = 0;
            while k < n
                invariant
                    n == properties@.len(),
                    properties@ == props,
                    indices_on_board(t0, props),
                    state@.players == s0.players,
                    k <= n,
                    (GameView { players: s0.players, tiles: s0.tiles, ..state@ }) == s0,
                    state@.tiles == tiles_after_bankruptcy(t0, props.take(k as int), None),
                decreases n - k,
            {
                let tile_index = properties[k];
                match &mut state.board.tiles[tile_index] {
                    Tile::Property(p) => {
                        p.owner = None;
                        p.houses = 0;
                        p.mortgaged = false;
                    },
                    Tile::Railroad(r) => {
                        r.owner = None;
                        r.mortgaged = false;
                    },
                    Tile::Utility(u) => {
                        u.owner = None;
                        u.mortgaged = false;
                    },
                    _ => {},
                }
                proof {
                    assert forall|i: int| 0 <= i < t0.len() implies
                        lists(props.take(k + 1), i) == (lists(props.take(k as int), i) || i == tile_index)
                    by {
                        lemma_lists_step(props, k as int, i);
                    }
                    assert(state@.tiles =~= tiles_after_bankruptcy(t0, props.take(k + 1), None));
                }
                k += 1;
            }
            state.players[bi].properties.clear();
            state.players[bi].money = 0;
            state.players[bi].bankrupt = true;
            proof {
                assert(props.take(n as int) =~= props);
                let e = players_after_bankruptcy(s0.players, bi as int, creditor);
                assert forall|j: int| 0 <= j < s0.players.len() implies state@.players[j] =~= e[j] by {}
                assert(state@.players =~= e);
            }
        },
    }
    proof {
        assert(state@.tiles =~= tiles_after_bankruptcy(s0.tiles, props, creditor));
    }

    let ghost s1 = state@;
    proof {
        assert(s1 =~= GameView {
            players: players_after_bankruptcy(s0.players, bi as int, creditor),
            tiles: tiles_after_bankruptcy(s0.tiles, props, creditor),
            ..s0
        });
    }
    // Check the win condition
    let active = active_ids(&state.players);
    proof {
        assert(active@.len() == s1.active().len());
        if active@.len() == 1 {
            assert(active@[0] == s1.active()[0].id);
        }
    }
    if active.len() == 1 {
        let winner = active[0];
        state.game_over = true;
        state.winner = Some(winner);
        return BankruptcyResult::GameOver { winner };
    }

    BankruptcyResult::Bankrupt { eliminated: player_id }
}

/// Ids of the players that are not bankrupt, in seat order.
pub(crate) fn active_ids(players: &Vec<Player>) -> (r: Vec<u8>)
    ensures
        r@ == players@.map_values(|p: Player| p@).filter(|p: PlayerView| !p.bankrupt).map_values(|p: PlayerView| p.id),
{
    let ghost ps = players@.map_values(|p: Player| p@);
    let mut r: Vec<u8> = Vec::new();
    let mut i: usize = 0;
    while i < players.len()
        invariant
            ps == players@.map_values(|p: Player| p@),
            i <= ps.len(),
            r@ == ps.take(i as int).filter(|p: PlayerView| !p.bankrupt).map_values(|p: PlayerView| p.id),
        decreases ps.len() - i,
    {
        proof {
            assert(ps.take(i + 1).drop_last() =~= ps.take(i as int));
            reveal_with_fuel(Seq::filter, 1);
        }
        if !players[i].bankrupt {
            r.push(players[i].id);
        }
        proof {
            assert(r@ =~= ps.take(i + 1).filter(|p: PlayerView| !p.bankrupt).map_values(|p: PlayerView| p.id));
        }
        i += 1;
    }
    proof { assert(ps.take(ps.len() as int) =~= ps); }
    r
}

/// A copy of a list of tile indices.
pub(crate) fn copy_indices(v: &Vec<usize>) -> (r: Vec<usize>)
    ensures
        r@ == v@,
{
    let mut r: Vec<usize> = Vec::new();
    let mut i: usize = 0;
    while i < v.len()
        invariant
            i <= v@.len(),
            r@ == v@.take(i as int),
        decreases v@.len() - i,
    {
        r.push(v[i]);
        proof { assert(r@ =~= v@.take(i + 1)); }
        i += 1;
    }
    proof { assert(v@.take(v@.len() as int) =~= v@); }
    r
}

} // verus!
