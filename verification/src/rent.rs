use vstd::prelude::*;
use crate::board::{Tile, ColorGroup};
use crate::state::GameState;
use crate::dice::DiceRoll;

verus! {

/// Tile `t` is either outside color group `group` or owned by `owner`.
pub open spec fn in_group_owned_by(t: Tile, group: ColorGroup, owner: u8) -> bool {
    match t {
        Tile::Property(p) => p.color_group == group ==> p.owner == Some(owner),
        _ => true,
    }
}

/// The tile at `tile_index` is an owned property whose owner holds every
/// property of color group `group`.
pub open spec fn owns_full_group_spec(tiles: Seq<Tile>, tile_index: int, group: ColorGroup) -> bool {
    match tiles[tile_index] {
        Tile::Property(p) => match p.owner {
            Some(o) => forall|i: int| 0 <= i < tiles.len() ==> #[trigger] in_group_owned_by(tiles[i], group, o),
            None => false,
        },
        _ => false,
    }
}

pub open spec fn is_railroad_of(t: Tile, owner: u8) -> bool {
    t matches Tile::Railroad(r) && r.owner == Some(owner)
}

pub open spec fn is_utility_of(t: Tile, owner: u8) -> bool {
    t matches Tile::Utility(u) && u.owner == Some(owner)
}

/// Number of railroads that `owner` holds.
pub open spec fn railroads_owned(tiles: Seq<Tile>, owner: u8) -> nat {
    tiles.filter(|t: Tile| is_railroad_of(t, owner)).len()
}

/// Number of utilities that `owner` holds.
pub open spec fn utilities_owned(tiles: Seq<Tile>, owner: u8) -> nat {
    tiles.filter(|t: Tile| is_utility_of(t, owner)).len()
}

/// Railroad rent by the number of railroads the owner holds.
pub open spec fn railroad_rent(owned: u32) -> u32 {
    if owned == 1 { 25 } else if owned == 2 { 50 } else if owned == 3 { 100 } else if owned == 4 { 200 } else { 0 }
}

/// Utility rent by the number of utilities the owner holds and the dice total.
pub open spec fn utility_rent(owned: u32, dice_total: u32) -> int {
    if owned == 1 { dice_total * 4 } else if owned == 2 { dice_total * 10 } else { 0 }
}

/// The rent owed for landing on the tile at `tile_index`.
pub open spec fn rent_due(tiles: Seq<Tile>, tile_index: int, roll: DiceRoll) -> int {
    match tiles[tile_index] {
        Tile::Property(p) => {
            if p.mortgaged {
                0
            } else if p.houses == 0 && owns_full_group_spec(tiles, tile_index, p.color_group) {
                2 * p.rent@[p.houses as int]
            } else {
                p.rent@[p.houses as int] as int
            }
        },
        Tile::Railroad(r) => {
            if r.mortgaged {
                0
            } else {
                railroad_rent(railroads_owned(tiles, r.owner.unwrap()) as u32) as int
            }
        },
        Tile::Utility(u) => {
            if u.mortgaged {
                0
            } else {
                utility_rent(utilities_owned(tiles, u.owner.unwrap()) as u32, (roll.die1 + roll.die2) as u32)
            }
        },
        _ => 0,
    }
}

/// The inputs on which computing the rent neither indexes out of bounds,
/// unwraps a missing owner nor overflows.
pub open spec fn rent_computable(tiles: Seq<Tile>, tile_index: int, roll: DiceRoll) -> bool {
    &&& 0 <= tile_index < tiles.len()
    &&& match tiles[tile_index] {
        Tile::Property(p) => !p.mortgaged ==> p.houses < 6 && rent_due(tiles, tile_index, roll) <= u32::MAX,
        Tile::Railroad(r) => !r.mortgaged ==> r.owner is Some,
        Tile::Utility(u) => !u.mortgaged ==> u.owner is Some && roll.die1 + roll.die2 <= u8::MAX,
        _ => true,
    }
}

/// Calculate the rent owed when landing on an owned tile.
pub fn calculate_rent(state: &GameState, tile_index: usize, roll: &DiceRoll) -> (rent: u32)
    requires
        rent_computable(state@.tiles, tile_index as int, *roll),
    ensures
        rent == rent_due(state@.tiles, tile_index as int, *roll),
{
    match &state.board.tiles[tile_index] {
        Tile::Property(p) => {
            if p.mortgaged {
                return 0;
            }
            let base_rent = p.rent[p.houses as usize];
            // Double rent if the owner has the full color group and no houses built
            if p.houses == 0 && owns_full_group(state, tile_index, &p.color_group) {
                base_rent * 2
            } else {
                base_rent
            }
        },
        Tile::Railroad(r) => {
            if r.mortgaged {
                return 0;
            }
            let owned = count_owned_railroads(state, r.owner.unwrap());
            match owned {
                1 => 25,
                2 => 50,
                3 => 100,
                4 => 200,
                _ => 0,
            }
        },
        Tile::Utility(u) => {
            if u.mortgaged {
                return 0;
            }
            let owned = count_owned_utilities(state, u.owner.unwrap());
            let dice_total = roll.total() as u32;
            match owned {
                1 => dice_total * 4,
                2 => dice_total * 10,
                _ => 0,
            }
        },
        _ => 0,
    }
}

/// Check if the owner of a tile owns all properties in that color group.
pub(crate) fn owns_full_group(state: &GameState, tile_index: usize, group: &ColorGroup) -> (b: bool)
    requires
        tile_index < state@.tiles.len(),
    ensures
        b == owns_full_group_spec(state@.tiles, tile_index as int, *group),
{
    let owner = match &state.board.tiles[tile_index] {
        Tile::Property(p) => match p.owner {
            Some(o) => o,
            None => return false,
        },
        _ => return false,
    };
    let n = state.board.tiles.len();
    let mut i: usize = 0;
    while i < n
        invariant
            n == state@.tiles.len(),
            i <= n,
            owns_full_group_spec(state@.tiles, tile_index as int, *group)
                == (forall|j: int| 0 <= j < n ==> #[trigger] in_group_owned_by(state@.tiles[j], *group, owner)),
            forall|j: int| 0 <= j < i ==> #[trigger] in_group_owned_by(state@.tiles[j], *group, owner),
        decreases n - i,
    {
        match &state.board.tiles[i] {
            Tile::Property(p) => {
                if p.color_group == *group {
                    match p.owner {
                        Some(o) => {
                            if o != owner {
                                assert(!in_group_owned_by(state@.tiles[i as int], *group, owner));
                                return false;
                            }
                        },
                        None => {
                            assert(!in_group_owned_by(state@.tiles[i as int], *group, owner));
                            return false;
                        },
                    }
                }
            },
            _ => {},
        }
        i += 1;
    }
    true
}

pub(crate) fn count_owned_railroads(state: &GameState, owner: u8) -> (n: u32)
    ensures
        n == railroads_owned(state@.tiles, owner) as u32,
{
    let ghost tiles = state@.tiles;
    let mut count: usize = 0;
    let mut i: usize = 0;
    while i < state.board.tiles.len()
        invariant
            tiles == state@.tiles,
            i <= tiles.len(),
            count == tiles.take(i as int).filter(|t: Tile| is_railroad_of(t, owner)).len(),
            count <= i,
        decreases tiles.len() - i,
    {
        proof {
            assert(tiles.take(i + 1).drop_last() =~= tiles.take(i as int));
            reveal_with_fuel(Seq::filter, 1);
        }
        let hit = match &state.board.tiles[i] {
            Tile::Railroad(r) => match r.owner {
                Some(o) => o == owner,
                None => false,
            },
            _ => false,
        };
        if hit {
            count += 1;
        }
        i += 1;
    }
    proof {
        assert(tiles.take(tiles.len() as int) =~= tiles);
    }
    count as u32
}

pub(crate) fn count_owned_utilities(state: &GameState, owner: u8) -> (n: u32)
    ensures
        n == utilities_owned(state@.tiles, owner) as u32,
{
    let ghost tiles = state@.tiles;
    let mut count: usize = 0;
    let mut i: usize = 0;
    while i < state.board.tiles.len()
        invariant
            tiles == state@.tiles,
            i <= tiles.len(),
            count == tiles.take(i as int).filter(|t: Tile| is_utility_of(t, owner)).len(),
            count <= i,
        decreases tiles.len() - i,
    {
        proof {
            assert(tiles.take(i + 1).drop_last() =~= tiles.take(i as int));
            reveal_with_fuel(Seq::filter, 1);
        }
        let hit = match &state.board.tiles[i] {
            Tile::Utility(u) => match u.owner {
                Some(o) => o == owner,
                None => false,
            },
            _ => false,
        };
        if hit {
            count += 1;
        }
        i += 1;
    }
    proof {
        assert(tiles.take(tiles.len() as int) =~= tiles);
    }
    count as u32
}

} // verus!
