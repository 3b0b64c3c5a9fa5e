//! Laws on what a turn does to whom: nobody owes rent to themselves, a
//! railroad's rent depends on its owner's railroads alone, and an auction
//! ends once every player still in the game has passed.
use vstd::prelude::*;
use crate::board::{Tile, RailroadTile, ColorGroup};
use crate::dice::DiceRoll;
use crate::buying::after_auction;
use crate::engine::{rolled, payee, passed, engine_step, EngineError, Recipient, StepView};
use crate::lobby::LobbyView;
use crate::network::{ClientMessage, Note};
use crate::ownership::distinct_ids;
use crate::player::PlayerView;
use crate::movement::{landing_result, advance_result, after_advance, advance_in_range, MoveResult};
use crate::rent::{rent_due, railroads_owned, is_railroad_of, utilities_owned, is_utility_of};
use crate::state::{GameView, TurnPhase};

verus! {

// ---------------------------------------------------------------- landing

/// Landing on a tile that the moving player owns does nothing, and a
/// landing asks for rent only for a tile of another player: the tile's
/// owner, who is not the mover.
pub proof fn law_no_rent_to_oneself(s: GameView, tile_index: usize, passed_go: bool)
    requires
        tile_index < s.tiles.len(),
    ensures
        s.tiles[tile_index as int].is_buyable() && s.tiles[tile_index as int].owner() == Some(s.current().id)
            ==> landing_result(s, tile_index, passed_go) == MoveResult::NoEffect,
        landing_result(s, tile_index, passed_go) matches MoveResult::LandedOnOwnedProperty { tile_index: t, owner }
            ==> t == tile_index && owner != s.current().id && s.tiles[tile_index as int].owner() == Some(owner),
{
}

/// After a roll, a player owes rent, if any, to someone else: the owner of
/// the tile landed on.
pub proof fn law_rolled_rent_goes_to_another(s: GameView, roll: DiceRoll, go_salary: u32)
    requires
        advance_in_range(s, roll, go_salary),
    ensures
        rolled(s, roll, go_salary).turn_phase matches TurnPhase::PayingRent { to_player, .. }
            ==> to_player != s.current().id,
{
    let s1 = after_advance(s, roll, go_salary);
    let m = crate::movement::moved(s, roll, go_salary);
    let new_pos = crate::movement::target_position(s.current().position, roll, s.tiles.len());
    if let MoveResult::LandedOnOwnedProperty { tile_index, owner } = advance_result(s, roll, go_salary) {
        law_no_rent_to_oneself(m, new_pos, crate::movement::passes_go(s.current().position, new_pos));
        assert(m.current().id == s.current().id);
        assert(s1.tiles == s.tiles);
        assert(payee(s1.tiles[tile_index as int]) == owner);
    }
}

// ---------------------------------------------------------------- railroad rent

/// How many tiles of `tiles` are railroads owned by `o`, counted tile by tile.
pub open spec fn railroads_held_by(tiles: Seq<Tile>, o: u8) -> nat
    decreases tiles.len(),
{
    if tiles.len() == 0 {
        0
    } else {
        railroads_held_by(tiles.drop_last(), o)
            + if tiles.last() matches Tile::Railroad(r) && r.owner == Some(o) { 1nat } else { 0nat }
    }
}

proof fn lemma_railroads_counted(tiles: Seq<Tile>, o: u8)
    ensures
        railroads_owned(tiles, o) == railroads_held_by(tiles, o),
    decreases tiles.len(),
{
    reveal_with_fuel(Seq::filter, 1);
    if tiles.len() > 0 {
        lemma_railroads_counted(tiles.drop_last(), o);
        assert(tiles.drop_last().push(tiles.last()) =~= tiles);
    } else {
        assert(tiles.filter(|t: Tile| is_railroad_of(t, o)) =~= Seq::<Tile>::empty());
    }
}

proof fn lemma_same_railroads(a: Seq<Tile>, b: Seq<Tile>, o: u8)
    requires
        a.len() == b.len(),
        forall|i: int| 0 <= i < a.len() ==> (is_railroad_of(#[trigger] a[i], o) <==> is_railroad_of(b[i], o)),
    ensures
        railroads_held_by(a, o) == railroads_held_by(b, o),
    decreases a.len(),
{
    if a.len() > 0 {
        assert forall|i: int| 0 <= i < a.drop_last().len()
            implies (is_railroad_of(#[trigger] a.drop_last()[i], o) <==> is_railroad_of(b.drop_last()[i], o)) by {
            assert(a.drop_last()[i] == a[i]);
            assert(b.drop_last()[i] == b[i]);
        }
        lemma_same_railroads(a.drop_last(), b.drop_last(), o);
        assert(is_railroad_of(a[a.len() - 1], o) <==> is_railroad_of(b[b.len() - 1], o));
    }
}

/// The rent of an unmortgaged railroad owned by `o` is 25 for one railroad
/// held by `o`, doubling with each further one (50, 100, 200): railroads
/// held by anyone else do not count.
pub proof fn law_railroad_rent_counts_the_owners_railroads(tiles: Seq<Tile>, tile_index: int, roll: DiceRoll)
    requires
        0 <= tile_index < tiles.len(),
        tiles[tile_index] matches Tile::Railroad(r) && !r.mortgaged && r.owner is Some,
    ensures ({
        let o = tiles[tile_index]->Railroad_0.owner.unwrap();
        let k = railroads_held_by(tiles, o);
        &&& k == 1 ==> rent_due(tiles, tile_index, roll) == 25
        &&& k == 2 ==> rent_due(tiles, tile_index, roll) == 50
        &&& k == 3 ==> rent_due(tiles, tile_index, roll) == 100
        &&& k == 4 ==> rent_due(tiles, tile_index, roll) == 200
    }),
{
    let o = tiles[tile_index]->Railroad_0.owner.unwrap();
    lemma_railroads_counted(tiles, o);
}

/// Another player buying another railroad does not change a railroad's rent.
pub proof fn law_railroad_rent_ignores_other_owners(tiles: Seq<Tile>, tile_index: int, j: int, buyer: u8, roll: DiceRoll)
    requires
        0 <= tile_index < tiles.len(),
        0 <= j < tiles.len(),
        j != tile_index,
        tiles[tile_index] matches Tile::Railroad(r) && r.owner is Some && r.owner != Some(buyer),
        tiles[j] matches Tile::Railroad(x) && x.owner is None,
    ensures
        rent_due(tiles.update(j, Tile::Railroad(RailroadTile { owner: Some(buyer), ..tiles[j]->Railroad_0 })), tile_index, roll)
            == rent_due(tiles, tile_index, roll),
{
    let o = tiles[tile_index]->Railroad_0.owner.unwrap();
    let b = tiles.update(j, Tile::Railroad(RailroadTile { owner: Some(buyer), ..tiles[j]->Railroad_0 }));
    assert forall|i: int| 0 <= i < tiles.len() implies (is_railroad_of(#[trigger] tiles[i], o) <==> is_railroad_of(b[i], o)) by {
        if i == j {
            assert(b[i] == Tile::Railroad(RailroadTile { owner: Some(buyer), ..tiles[j]->Railroad_0 }));
        } else {
            assert(b[i] == tiles[i]);
        }
    }
    lemma_same_railroads(tiles, b, o);
    lemma_railroads_counted(tiles, o);
    lemma_railroads_counted(b, o);
    assert(b[tile_index] == tiles[tile_index]);
}


// ---------------------------------------------------------------- auctions

/// The passers of an auction after `id` passes: `id` is counted once.
pub open spec fn recorded_passers(s: GameView, id: u8) -> Seq<u8> {
    if s.auction_passers.contains(id) { s.auction_passers } else { s.auction_passers.push(id) }
}

/// The game once the passes, `id`'s included, settle the auction; the
/// passers are then forgotten.
pub open spec fn settled_by_passes(s: GameView, id: u8) -> GameView {
    GameView { auction_passers: Seq::empty(), ..after_auction(GameView { auction_passers: recorded_passers(s, id), ..s }) }
}

/// The ids of the players of `ps` still in the game.
pub open spec fn ids_in_game(ps: Seq<PlayerView>) -> Set<u8>
    decreases ps.len(),
{
    if ps.len() == 0 {
        Set::empty()
    } else if ps.last().bankrupt {
        ids_in_game(ps.drop_last())
    } else {
        ids_in_game(ps.drop_last()).insert(ps.last().id)
    }
}

proof fn lemma_ids_in_game(ps: Seq<PlayerView>)
    requires
        distinct_ids(ps),
    ensures
        ids_in_game(ps).finite(),
        ids_in_game(ps).len() == ps.filter(|p: PlayerView| !p.bankrupt).len(),
        forall|x: u8| #[trigger] ids_in_game(ps).contains(x)
            ==> exists|i: int| 0 <= i < ps.len() && ps[i].id == x && !ps[i].bankrupt,
    decreases ps.len(),
{
    reveal_with_fuel(Seq::filter, 1);
    if ps.len() == 0 {
        assert(ps.filter(|p: PlayerView| !p.bankrupt) =~= Seq::<PlayerView>::empty());
    } else {
        let d = ps.drop_last();
        assert(distinct_ids(d)) by {
            assert forall|i: int, j: int| 0 <= i < d.len() && 0 <= j < d.len() && i != j implies d[i].id != d[j].id by {
                assert(d[i] == ps[i] && d[j] == ps[j]);
            }
        }
        lemma_ids_in_game(d);
        assert(d.push(ps.last()) =~= ps);
        let last = ps[ps.len() - 1];
        assert(last == ps.last());
        if !last.bankrupt {
            if ids_in_game(d).contains(last.id) {
                let i = choose|i: int| 0 <= i < d.len() && d[i].id == last.id && !d[i].bankrupt;
                assert(ps[i].id == ps[ps.len() - 1].id);
            }
        }
        assert forall|x: u8| #[trigger] ids_in_game(ps).contains(x)
            implies exists|i: int| 0 <= i < ps.len() && ps[i].id == x && !ps[i].bankrupt by {
            if ids_in_game(d).contains(x) {
                let i = choose|i: int| 0 <= i < d.len() && d[i].id == x && !d[i].bankrupt;
                assert(ps[i] == d[i]);
            } else {
                assert(ps[ps.len() - 1].id == x);
            }
        }
    }
}

/// When a pass leaves every player still in the game among the passers, the
/// auction is settled: the game becomes the auction's settlement with the
/// passes recorded, and the passers are forgotten. Bankrupt players do not
/// count, however many sit at the table.
pub proof fn law_all_passes_settle_the_auction(s: GameView, id: u8)
    requires
        distinct_ids(s.players),
        forall|i: int| 0 <= i < s.players.len() && !s.players[i].bankrupt
            ==> s.players[i].id == id || s.auction_passers.contains(s.players[i].id),
    ensures
        passed(s, id) == settled_by_passes(s, id),
{
    let passers = recorded_passers(s, id);
    lemma_ids_in_game(s.players);
    assert(s.active() == s.players.filter(|p: PlayerView| !p.bankrupt));
    let ids = ids_in_game(s.players);
    assert forall|x: u8| ids.contains(x) implies #[trigger] passers.to_set().contains(x) by {
        let i = choose|i: int| 0 <= i < s.players.len() && s.players[i].id == x && !s.players[i].bankrupt;
        if x == id {
            if !s.auction_passers.contains(id) {
                assert(passers[passers.len() - 1] == id);
            }
        } else {
            let k = choose|k: int| 0 <= k < s.auction_passers.len() && s.auction_passers[k] == x;
            if !s.auction_passers.contains(id) {
                assert(passers[k] == x);
            }
        }
        assert(passers.contains(x));
    }
    assert(ids.subset_of(passers.to_set()));
    passers.lemma_cardinality_of_set();
    vstd::set_lib::lemma_len_subset(ids, passers.to_set());
    assert(passers.len() >= s.active().len());
}


/// Through the server: the pass that completes the round of passes of the
/// players still in the game settles the auction for everyone.
pub proof fn law_last_pass_settles_through_the_engine(l: LobbyView, id: u8, roll: DiceRoll)
    requires
        l.game matches Some(s) && distinct_ids(s.players) && forall|i: int| 0 <= i < s.players.len() && !s.players[i].bankrupt
            ==> s.players[i].id == id || s.auction_passers.contains(s.players[i].id),
    ensures ({
        let s = l.game.unwrap();
        let settled = settled_by_passes(s, id);
        &&& engine_step(l, Some(id), ClientMessage::PassBid, roll).after.game == Some(settled)
        &&& engine_step(l, Some(id), ClientMessage::PassBid, roll).result
                == Ok::<StepView, EngineError>(StepView::Done {
                    joined: None,
                    notes: seq![(Recipient::Everyone, Note::StateUpdate { state: settled })],
                })
    }),
{
    law_all_passes_settle_the_auction(l.game.unwrap(), id);
}


// ---------------------------------------------------------------- utility and street rent

/// How many tiles of `tiles` are utilities owned by `o`, counted tile by tile.
pub open spec fn utilities_held_by(tiles: Seq<Tile>, o: u8) -> nat
    decreases tiles.len(),
{
    if tiles.len() == 0 {
        0
    } else {
        utilities_held_by(tiles.drop_last(), o)
            + if tiles.last() matches Tile::Utility(u) && u.owner == Some(o) { 1nat } else { 0nat }
    }
}

proof fn lemma_utilities_counted(tiles: Seq<Tile>, o: u8)
    ensures
        utilities_owned(tiles, o) == utilities_held_by(tiles, o),
    decreases tiles.len(),
{
    reveal_with_fuel(Seq::filter, 1);
    if tiles.len() > 0 {
        lemma_utilities_counted(tiles.drop_last(), o);
        assert(tiles.drop_last().push(tiles.last()) =~= tiles);
    } else {
        assert(tiles.filter(|t: Tile| is_utility_of(t, o)) =~= Seq::<Tile>::empty());
    }
}

/// The rent of an unmortgaged utility owned by `o` is four times the dice
/// when `o` holds one utility, ten times when `o` holds two; utilities held
/// by anyone else do not count.
pub proof fn law_utility_rent_counts_the_owners_utilities(tiles: Seq<Tile>, tile_index: int, roll: DiceRoll)
    requires
        0 <= tile_index < tiles.len(),
        tiles[tile_index] matches Tile::Utility(u) && !u.mortgaged && u.owner is Some,
    ensures ({
        let o = tiles[tile_index]->Utility_0.owner.unwrap();
        let k = utilities_held_by(tiles, o);
        let dice = roll.die1 + roll.die2;
        &&& k == 1 ==> rent_due(tiles, tile_index, roll) == 4 * dice
        &&& k == 2 ==> rent_due(tiles, tile_index, roll) == 10 * dice
    }),
{
    let o = tiles[tile_index]->Utility_0.owner.unwrap();
    lemma_utilities_counted(tiles, o);
}

/// Every street of colour group `g` belongs to `o`.
pub open spec fn group_held_by(tiles: Seq<Tile>, g: ColorGroup, o: u8) -> bool {
    forall|i: int| 0 <= i < tiles.len() && (#[trigger] tiles[i]) is Property && tiles[i]->Property_0.color_group == g
        ==> tiles[i]->Property_0.owner == Some(o)
}

/// The rent of an unmortgaged street owned by `o` is the rent for its
/// buildings; an unbuilt street pays double when `o` holds its whole colour
/// group; a mortgaged tile pays nothing.
pub proof fn law_street_rent(tiles: Seq<Tile>, tile_index: int, roll: DiceRoll)
    requires
        0 <= tile_index < tiles.len(),
        tiles[tile_index] matches Tile::Property(p) && p.owner is Some && p.houses < 6,
    ensures ({
        let p = tiles[tile_index]->Property_0;
        let o = p.owner.unwrap();
        &&& p.mortgaged ==> rent_due(tiles, tile_index, roll) == 0
        &&& !p.mortgaged && p.houses > 0 ==> rent_due(tiles, tile_index, roll) == p.rent@[p.houses as int]
        &&& !p.mortgaged && p.houses == 0 ==> rent_due(tiles, tile_index, roll)
                == if group_held_by(tiles, p.color_group, o) { 2 * p.rent@[0] } else { p.rent@[0] as int }
    }),
{
    let p = tiles[tile_index]->Property_0;
    let o = p.owner.unwrap();
    if group_held_by(tiles, p.color_group, o) {
        assert forall|i: int| 0 <= i < tiles.len() implies #[trigger] crate::rent::in_group_owned_by(tiles[i], p.color_group, o) by {
            if tiles[i] is Property && tiles[i]->Property_0.color_group == p.color_group {
                assert(tiles[i]->Property_0.owner == Some(o));
            }
        }
    } else {
        let i = choose|i: int| 0 <= i < tiles.len() && (#[trigger] tiles[i]) is Property
            && tiles[i]->Property_0.color_group == p.color_group && tiles[i]->Property_0.owner != Some(o);
        assert(!crate::rent::in_group_owned_by(tiles[i], p.color_group, o));
    }
}

// ---------------------------------------------------------------- an auction still open

/// A pass that leaves someone still in the game who has not passed does not
/// end the auction, when the passers are distinct players still in the game:
/// the phase and the board stay as they were.
pub proof fn law_auction_waits_for_every_pass(s: GameView, id: u8, missing: int)
    requires
        distinct_ids(s.players),
        recorded_passers(s, id).no_duplicates(),
        forall|k: int| 0 <= k < recorded_passers(s, id).len() ==> exists|i: int| 0 <= i < s.players.len()
            && #[trigger] s.players[i].id == #[trigger] recorded_passers(s, id)[k] && !s.players[i].bankrupt,
        0 <= missing < s.players.len(),
        !s.players[missing].bankrupt,
        s.players[missing].id != id,
        !s.auction_passers.contains(s.players[missing].id),
    ensures
        passed(s, id).turn_phase == s.turn_phase,
        passed(s, id).tiles == s.tiles,
        passed(s, id).players == s.players,
{
    let passers = recorded_passers(s, id);
    lemma_ids_in_game(s.players);
    assert(s.active() == s.players.filter(|p: PlayerView| !p.bankrupt));
    let ids = ids_in_game(s.players);
    let m = s.players[missing].id;
    lemma_in_game_listed(s.players, missing);
    assert(!passers.contains(m)) by {
        if passers.contains(m) {
            let k = choose|k: int| 0 <= k < passers.len() && passers[k] == m;
            if !s.auction_passers.contains(id) && k == s.auction_passers.len() {
                assert(passers[k] == id);
            } else {
                assert(s.auction_passers[k] == m);
            }
        }
    }
    assert forall|x: u8| passers.to_set().contains(x) implies #[trigger] ids.remove(m).contains(x) by {
        let k = choose|k: int| 0 <= k < passers.len() && passers[k] == x;
        assert(passers[k] == recorded_passers(s, id)[k]);
        let i = choose|i: int| 0 <= i < s.players.len() && #[trigger] s.players[i].id == recorded_passers(s, id)[k] && !s.players[i].bankrupt;
        lemma_in_game_listed(s.players, i);
    }
    assert(passers.to_set().subset_of(ids.remove(m)));
    passers.unique_seq_to_set();
    vstd::set_lib::lemma_len_subset(passers.to_set(), ids.remove(m));
    assert(passers.len() < s.active().len());
}

proof fn lemma_in_game_listed(ps: Seq<PlayerView>, i: int)
    requires
        0 <= i < ps.len(),
        !ps[i].bankrupt,
    ensures
        ids_in_game(ps).contains(ps[i].id),
    decreases ps.len(),
{
    if i < ps.len() - 1 {
        assert(ps.drop_last()[i] == ps[i]);
        lemma_in_game_listed(ps.drop_last(), i);
    }
}

} // verus!
