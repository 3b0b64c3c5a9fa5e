use vstd::prelude::*;
use crate::board::Tile;
use crate::player::PlayerView;
use crate::state::{GameState, GameView, find_id, find_player_index, lemma_find_id_found};
use crate::bankruptcy::indices_on_board;

verus! {

#[derive(Debug, Clone)]
pub struct TradeOffer {
    pub from_player: u8,
    pub to_player: u8,
    /// Tile indices offered by `from_player`
    pub offered_properties: Vec<usize>,
    pub offered_money: u32,
    /// Tile indices requested from `to_player`
    pub requested_properties: Vec<usize>,
    pub requested_money: u32,
}

#[derive(Debug, Clone, Copy, PartialEq, Eq, Structural)]
pub enum TradeResult {
    Completed,
    InsufficientFunds { player: u8 },
    PropertyNotOwned { tile_index: usize, player: u8 },
    HasBuildings { tile_index: usize },
    InvalidPlayer,
}

/// Why tile `t` (at index `idx`) cannot be traded away by `owner`, if it cannot.
pub open spec fn tile_issue(t: Tile, idx: usize, owner: u8) -> Option<TradeResult> {
    match t {
        Tile::Property(p) => {
            if p.owner != Some(owner) {
                Some(TradeResult::PropertyNotOwned { tile_index: idx, player: owner })
            } else if p.houses > 0 {
                Some(TradeResult::HasBuildings { tile_index: idx })
            } else {
                None
            }
        },
        Tile::Railroad(r) => if r.owner != Some(owner) {
            Some(TradeResult::PropertyNotOwned { tile_index: idx, player: owner })
        } else {
            None
        },
        Tile::Utility(u) => if u.owner != Some(owner) {
            Some(TradeResult::PropertyNotOwned { tile_index: idx, player: owner })
        } else {
            None
        },
        _ => Some(TradeResult::PropertyNotOwned { tile_index: idx, player: owner }),
    }
}

/// The first issue, in list order, among the tiles `owner` would trade away.
pub open spec fn list_issue(tiles: Seq<Tile>, list: Seq<usize>, owner: u8) -> Option<TradeResult>
    decreases list.len(),
{
    if list.len() == 0 {
        None
    } else {
        match tile_issue(tiles[list[0] as int], list[0], owner) {
            Some(e) => Some(e),
            None => list_issue(tiles, list.drop_first(), owner),
        }
    }
}

/// Checking the list in order meets no index off the board before the first issue.
pub open spec fn list_checkable(tiles: Seq<Tile>, list: Seq<usize>, owner: u8) -> bool
    decreases list.len(),
{
    list.len() == 0 || (list[0] < tiles.len() && (tile_issue(tiles[list[0] as int], list[0], owner) is Some
        || list_checkable(tiles, list.drop_first(), owner)))
}

pub proof fn lemma_issue_not_completed(tiles: Seq<Tile>, list: Seq<usize>, owner: u8)
    ensures
        list_issue(tiles, list, owner) != Some(TradeResult::Completed),
    decreases list.len(),
{
    if list.len() > 0 {
        lemma_issue_not_completed(tiles, list.drop_first(), owner);
    }
}

pub proof fn lemma_clean_list_on_board(tiles: Seq<Tile>, list: Seq<usize>, owner: u8)
    requires
        list_checkable(tiles, list, owner),
        list_issue(tiles, list, owner) is None,
    ensures
        indices_on_board(tiles, list),
    decreases list.len(),
{
    if list.len() > 0 {
        lemma_clean_list_on_board(tiles, list.drop_first(), owner);
        assert forall|k: int| 0 <= k < list.len() implies #[trigger] list[k] < tiles.len() by {
            if k > 0 {
                assert(list[k] == list.drop_first()[k - 1]);
            }
        }
    }
}

/// The list `props` with every entry equal to `t` dropped.
pub open spec fn without(props: Seq<usize>, t: usize) -> Seq<usize> {
    props.filter(|x: usize| x != t)
}

/// A tile changes hands from seat `fi` to seat `ti`: the tile gets owner
/// `new_owner`, the giver's list drops every entry of it, the taker's list gains it.
pub open spec fn transfer_one(s: GameView, t: usize, fi: int, ti: int, new_owner: u8) -> GameView {
    let pa = s.players.update(fi, PlayerView {
        properties: without(s.players[fi].properties, t),
        ..s.players[fi]
    });
    let pb = pa.update(ti, PlayerView { properties: pa[ti].properties.push(t), ..pa[ti] });
    GameView {
        tiles: s.tiles.update(t as int, s.tiles[t as int].with_owner(Some(new_owner))),
        players: pb,
        ..s
    }
}

/// Every tile of `list`, in order, changes hands from seat `fi` to seat `ti`.
pub open spec fn transfer_all(s: GameView, list: Seq<usize>, fi: int, ti: int, new_owner: u8) -> GameView
    decreases list.len(),
{
    if list.len() == 0 {
        s
    } else {
        transfer_all(transfer_one(s, list[0], fi, ti, new_owner), list.drop_first(), fi, ti, new_owner)
    }
}

/// The players after the cash of a trade moved, step by step: the giver pays
/// the offered money, the taker receives it, the taker pays the requested
/// money, the giver receives it.
pub open spec fn players_after_payment(ps: Seq<PlayerView>, fi: int, ti: int, om: u32, rm: u32) -> Seq<PlayerView> {
    let m1 = ps.update(fi, ps[fi].with_money((ps[fi].money - om) as u32));
    let m2 = m1.update(ti, m1[ti].with_money((m1[ti].money + om) as u32));
    let m3 = m2.update(ti, m2[ti].with_money((m2[ti].money - rm) as u32));
    m3.update(fi, m3[fi].with_money((m3[fi].money + rm) as u32))
}

/// What executing `offer` answers.
pub open spec fn trade_outcome(s: GameView, offer: TradeOffer) -> TradeResult {
    match (find_id(s.players, offer.from_player), find_id(s.players, offer.to_player)) {
        (Some(fi), Some(ti)) => match list_issue(s.tiles, offer.offered_properties@, offer.from_player) {
            Some(e) => e,
            None => match list_issue(s.tiles, offer.requested_properties@, offer.to_player) {
                Some(e) => e,
                None => if s.players[fi].money < offer.offered_money {
                    TradeResult::InsufficientFunds { player: offer.from_player }
                } else if s.players[ti].money < offer.requested_money {
                    TradeResult::InsufficientFunds { player: offer.to_player }
                } else {
                    TradeResult::Completed
                },
            },
        },
        _ => TradeResult::InvalidPlayer,
    }
}

/// The state after a completed trade: cash moves, then the offered tiles,
/// then the requested tiles.
pub open spec fn after_trade(s: GameView, offer: TradeOffer) -> GameView {
    let fi = find_id(s.players, offer.from_player).unwrap();
    let ti = find_id(s.players, offer.to_player).unwrap();
    let s1 = GameView {
        players: players_after_payment(s.players, fi, ti, offer.offered_money, offer.requested_money),
        ..s
    };
    let s2 = transfer_all(s1, offer.offered_properties@, fi, ti, offer.to_player);
    transfer_all(s2, offer.requested_properties@, ti, fi, offer.from_player)
}

/// Executing `offer` meets no index off the board and no overflow.
pub open spec fn trade_in_range(s: GameView, offer: TradeOffer) -> bool {
    (find_id(s.players, offer.from_player) is Some && find_id(s.players, offer.to_player) is Some) ==> {
        let fi = find_id(s.players, offer.from_player).unwrap();
        let ti = find_id(s.players, offer.to_player).unwrap();
        let om = offer.offered_money;
        let rm = offer.requested_money;
        &&& list_checkable(s.tiles, offer.offered_properties@, offer.from_player)
        &&& list_issue(s.tiles, offer.offered_properties@, offer.from_player) is None
                ==> list_checkable(s.tiles, offer.requested_properties@, offer.to_player)
        &&& trade_outcome(s, offer) == TradeResult::Completed ==> {
            let m1 = s.players.update(fi, s.players[fi].with_money((s.players[fi].money - om) as u32));
            let m2 = m1.update(ti, m1[ti].with_money((m1[ti].money + om) as u32));
            let m3 = m2.update(ti, m2[ti].with_money((m2[ti].money - rm) as u32));
            &&& m1[ti].money + om <= u32::MAX
            &&& m3[fi].money + rm <= u32::MAX
        }
    }
}

/// Validate and execute a trade between two players.
pub fn execute_trade(state: &mut GameState, offer: TradeOffer) -> (r: TradeResult)
    requires
        trade_in_range(old(state)@, offer),
    ensures
        r == trade_outcome(old(state)@, offer),
        r == TradeResult::Completed ==> final(state)@ == after_trade(old(state)@, offer),
        r != TradeResult::Completed ==> final(state)@ == old(state)@,
{
    let ghost s0 = state@;
    proof {
        lemma_find_id_found(s0.players, offer.from_player);
        lemma_find_id_found(s0.players, offer.to_player);
    }
    // Validate that both players exist
    let from_index = match find_player_index(&state.players, offer.from_player) {
        Some(i) => i,
        None => return TradeResult::InvalidPlayer,
    };
    let to_index = match find_player_index(&state.players, offer.to_player) {
        Some(i) => i,
        None => return TradeResult::InvalidPlayer,
    };

    proof {
        lemma_issue_not_completed(s0.tiles, offer.offered_properties@, offer.from_player);
        lemma_issue_not_completed(s0.tiles, offer.requested_properties@, offer.to_player);
    }
    // Validate that the offered properties belong to from_player and have no buildings
    match first_issue(state, &offer.offered_properties, offer.from_player) {
        Some(e) => return e,
        None => {},
    }
    // Validate that the requested properties belong to to_player and have no buildings
    match first_issue(state, &offer.requested_properties, offer.to_player) {
        Some(e) => return e,
        None => {},
    }

    // Validate funds
    if state.players[from_index].money < offer.offered_money {
        return TradeResult::InsufficientFunds { player: offer.from_player };
    }
    if state.players[to_index].money < offer.requested_money {
        return TradeResult::InsufficientFunds { player: offer.to_player };
    }

    let fi = from_index;
    let ti = to_index;
    let ghost ps = s0.players;
    let ghost om = offer.offered_money;
    let ghost rm = offer.requested_money;
    let ghost m1 = ps.update(fi as int, ps[fi as int].with_money((ps[fi as int].money - om) as u32));
    let ghost m2 = m1.update(ti as int, m1[ti as int].with_money((m1[ti as int].money + om) as u32));
    let ghost m3 = m2.update(ti as int, m2[ti as int].with_money((m2[ti as int].money - rm) as u32));
    let ghost m4 = m3.update(fi as int, m3[fi as int].with_money((m3[fi as int].money + rm) as u32));

    // Execute: transfer money
    state.players[fi].money -= offer.offered_money;
    proof { assert forall|j: int| 0 <= j < ps.len() implies state@.players[j] =~= m1[j] by {} }
    state.players[ti].money += offer.offered_money;
    proof { assert forall|j: int| 0 <= j < ps.len() implies state@.players[j] =~= m2[j] by {} }
    state.players[ti].money -= offer.requested_money;
    proof { assert forall|j: int| 0 <= j < ps.len() implies state@.players[j] =~= m3[j] by {} }
    state.players[fi].money += offer.requested_money;
    proof {
        assert forall|j: int| 0 <= j < ps.len() implies state@.players[j] =~= m4[j] by {}
        assert(state@.players =~= m4);
        assert(state@ =~= GameView { players: players_after_payment(ps, fi as int, ti as int, om, rm), ..s0 });
        lemma_clean_list_on_board(s0.tiles, offer.offered_properties@, offer.from_player);
        lemma_clean_list_on_board(s0.tiles, offer.requested_properties@, offer.to_player);
    }

    // Transfer the offered properties from -> to
    transfer_listed(state, &offer.offered_properties, fi, ti, offer.to_player);
    // Transfer the requested properties to -> from
    transfer_listed(state, &offer.requested_properties, ti, fi, offer.from_player);

    TradeResult::Completed
}

/// The first issue among the tiles of `list` that `owner` would trade away.
fn first_issue(state: &GameState, list: &Vec<usize>, owner: u8) -> (r: Option<TradeResult>)
    requires
        list_checkable(state@.tiles, list@, owner),
    ensures
        r == list_issue(state@.tiles, list@, owner),
{
    let ghost tiles = state@.tiles;
    let mut k: usize = 0;
    proof { assert(list@.skip(0) =~= list@); }
    while k < list.len()
        invariant
            tiles == state@.tiles,
            k <= list@.len(),
            list_issue(tiles, list@, owner) == list_issue(tiles, list@.skip(k as int), owner),
            list_checkable(tiles, list@.skip(k as int), owner),
        decreases list@.len() - k,
    {
        let tile_index = list[k];
        proof {
            assert(list@.skip(k as int)[0] == tile_index);
            assert(list@.skip(k as int).drop_first() =~= list@.skip(k + 1));
        }
        match &state.board.tiles[tile_index] {
            Tile::Property(p) => {
                if p.owner != Some(owner) {
                    return Some(TradeResult::PropertyNotOwned { tile_index, player: owner });
                }
                if p.houses > 0 {
                    return Some(TradeResult::HasBuildings { tile_index });
                }
            },
            Tile::Railroad(r) => {
                if r.owner != Some(owner) {
                    return Some(TradeResult::PropertyNotOwned { tile_index, player: owner });
                }
            },
            Tile::Utility(u) => {
                if u.owner != Some(owner) {
                    return Some(TradeResult::PropertyNotOwned { tile_index, player: owner });
                }
            },
            _ => return Some(TradeResult::PropertyNotOwned { tile_index, player: owner }),
        }
        k += 1;
    }
    proof { assert(list@.skip(k as int).len() == 0); }
    None
}

/// Every tile of `list`, in order, changes hands from seat `fi` to seat `ti`.
fn transfer_listed(state: &mut GameState, list: &Vec<usize>, fi: usize, ti: usize, new_owner: u8)
    requires
        fi < old(state)@.players.len(),
        ti < old(state)@.players.len(),
        indices_on_board(old(state)@.tiles, list@),
    ensures
        final(state)@ == transfer_all(old(state)@, list@, fi as int, ti as int, new_owner),
        final(state)@.players.len() == old(state)@.players.len(),
        final(state)@.tiles.len() == old(state)@.tiles.len(),
{
    let ghost s0 = state@;
    let mut k: usize = 0;
    proof { assert(list@.skip(0) =~= list@); }
    while k < list.len()
        invariant
            fi < state@.players.len(),
            ti < state@.players.len(),
            state@.tiles.len() == s0.tiles.len(),
            state@.players.len() == s0.players.len(),
            indices_on_board(s0.tiles, list@),
            k <= list@.len(),
            transfer_all(s0, list@, fi as int, ti as int, new_owner)
                == transfer_all(state@, list@.skip(k as int), fi as int, ti as int, new_owner),
        decreases list@.len() - k,
    {
        let tile_index = list[k];
        proof {
            assert(list@.skip(k as int)[0] == tile_index);
            assert(list@.skip(k as int).drop_first() =~= list@.skip(k + 1));
        }
        transfer_tile(state, tile_index, fi, ti, new_owner);
        k += 1;
    }
    proof { assert(list@.skip(k as int).len() == 0); }
}

/// Tile `tile_index` changes hands from seat `fi` to seat `ti`.
fn transfer_tile(state: &mut GameState, tile_index: usize, fi: usize, ti: usize, new_owner: u8)
    requires
        fi < old(state)@.players.len(),
        ti < old(state)@.players.len(),
        tile_index < old(state)@.tiles.len(),
    ensures
        final(state)@ == transfer_one(old(state)@, tile_index, fi as int, ti as int, new_owner),
{
    let ghost s0 = state@;
    match &mut state.board.tiles[tile_index] {
        Tile::Property(p) => p.owner = Some(new_owner),
        Tile::Railroad(r) => r.owner = Some(new_owner),
        Tile::Utility(u) => u.owner = Some(new_owner),
        _ => {},
    }
    let ghost e = transfer_one(s0, tile_index, fi as int, ti as int, new_owner);
    let ghost pa = s0.players.update(fi as int, PlayerView {
        properties: without(s0.players[fi as int].properties, tile_index),
        ..s0.players[fi as int]
    });
    remove_all(&mut state.players[fi].properties, tile_index);
    proof { assert forall|j: int| 0 <= j < pa.len() implies state@.players[j] =~= pa[j] by {} }
    let ghost before_push = state@.players;
    state.players[ti].properties.push(tile_index);
    proof {
        assert(state@.players[ti as int].properties =~= pa[ti as int].properties.push(tile_index));
        assert forall|j: int| 0 <= j < pa.len() && j != ti implies state@.players[j] == before_push[j] by {}
        assert forall|j: int| 0 <= j < pa.len() implies state@.players[j] =~= e.players[j] by {}
        assert(state@.players =~= e.players);
        assert(state@.tiles =~= e.tiles);
    }
}

/// Drop every entry equal to `t` from `v`, keeping the order of the rest.
pub(crate) fn remove_all(v: &mut Vec<usize>, t: usize)
    ensures
        final(v)@ == without(old(v)@, t),
{
    let ghost s = v@;
    let mut kept: Vec<usize> = Vec::new();
    let mut i: usize = 0;
    while i < v.len()
        invariant
            s == v@,
            i <= s.len(),
            kept@ == without(s.take(i as int), t),
        decreases s.len() - i,
    {
        proof {
            assert(s.take(i + 1).drop_last() =~= s.take(i as int));
            reveal_with_fuel(Seq::filter, 1);
        }
        if v[i] != t {
            kept.push(v[i]);
        }
        proof { assert(kept@ =~= without(s.take(i + 1), t)); }
        i += 1;
    }
    proof { assert(s.take(s.len() as int) =~= s); }
    *v = kept;
}

} // verus!
