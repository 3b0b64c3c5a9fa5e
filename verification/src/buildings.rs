use vstd::prelude::*;
use crate::board::{Tile, PropertyTile, RailroadTile, UtilityTile, ColorGroup};
use crate::state::{GameState, GameView};
use crate::rent::{owns_full_group, owns_full_group_spec};

verus! {

#[derive(Debug, Clone, Copy, PartialEq, Eq, Structural)]
pub enum BuildResult {
    Built,
    InsufficientFunds,
    IncompleteGroup,
    NoSupply,
    MaxReached,
    NotAProperty,
    NotOwner,
}

#[derive(Debug, Clone, Copy, PartialEq, Eq, Structural)]
pub enum MortgageResult {
    Mortgaged { value: u32 },
    Unmortgaged { cost: u32 },
    AlreadyMortgaged,
    NotMortgaged,
    NotOwner,
    InsufficientFunds,
    NotAProperty,
    HasBuildings,
}

/// Tile `t` is outside color group `group` or has at least `level` buildings.
pub open spec fn in_group_at_least(t: Tile, group: ColorGroup, level: u8) -> bool {
    match t {
        Tile::Property(p) => p.color_group == group ==> p.houses >= level,
        _ => true,
    }
}

/// Tile `t` is outside color group `group` or has at most `level` buildings.
pub open spec fn in_group_at_most(t: Tile, group: ColorGroup, level: u8) -> bool {
    match t {
        Tile::Property(p) => p.color_group == group ==> p.houses <= level,
        _ => true,
    }
}

/// Building on the property at `tile_index` keeps its color group even:
/// no property of the group has fewer buildings than it.
pub open spec fn builds_evenly(tiles: Seq<Tile>, tile_index: int, group: ColorGroup) -> bool {
    match tiles[tile_index] {
        Tile::Property(p) => forall|i: int| 0 <= i < tiles.len() ==> #[trigger] in_group_at_least(tiles[i], group, p.houses),
        _ => false,
    }
}

/// Selling from the property at `tile_index` keeps its color group even:
/// no property of the group has more buildings than it.
pub open spec fn sells_evenly(tiles: Seq<Tile>, tile_index: int, group: ColorGroup) -> bool {
    match tiles[tile_index] {
        Tile::Property(p) => forall|i: int| 0 <= i < tiles.len() ==> #[trigger] in_group_at_most(tiles[i], group, p.houses),
        _ => false,
    }
}

/// What building on `tile_index` answers, checks taken in order.
pub open spec fn build_outcome(s: GameView, tile_index: int) -> BuildResult {
    let pid = s.current().id;
    match s.tiles[tile_index] {
        Tile::Property(p) => {
            if p.owner != Some(pid) {
                BuildResult::NotOwner
            } else if p.mortgaged {
                BuildResult::NotAProperty
            } else if p.houses >= 5 {
                BuildResult::MaxReached
            } else if !owns_full_group_spec(s.tiles, tile_index, p.color_group) {
                BuildResult::IncompleteGroup
            } else if !builds_evenly(s.tiles, tile_index, p.color_group) {
                BuildResult::IncompleteGroup
            } else if (p.houses < 4 && s.houses_remaining == 0) || (p.houses >= 4 && s.hotels_remaining == 0) {
                BuildResult::NoSupply
            } else if s.current().money < p.building_cost {
                BuildResult::InsufficientFunds
            } else {
                BuildResult::Built
            }
        },
        _ => BuildResult::NotAProperty,
    }
}

/// The state after a successful build: the builder pays the building cost,
/// the property gains a building, and the supply gives a house, or gives a
/// hotel and takes the four houses back.
pub open spec fn after_build(s: GameView, tile_index: int) -> GameView {
    let p = s.tiles[tile_index]->Property_0;
    let ci = s.current_player_index as int;
    GameView {
        players: s.players.update(ci, s.current().with_money((s.current().money - p.building_cost) as u32)),
        tiles: s.tiles.update(tile_index, Tile::Property(PropertyTile { houses: (p.houses + 1) as u8, ..p })),
        houses_remaining: if p.houses < 4 { (s.houses_remaining - 1) as u8 } else { (s.houses_remaining + 4) as u8 },
        hotels_remaining: if p.houses < 4 { s.hotels_remaining } else { (s.hotels_remaining - 1) as u8 },
        ..s
    }
}

/// What selling a building from `tile_index` answers, checks taken in order.
pub open spec fn sell_outcome(s: GameView, tile_index: int) -> BuildResult {
    let pid = s.current().id;
    match s.tiles[tile_index] {
        Tile::Property(p) => {
            if p.owner != Some(pid) {
                BuildResult::NotOwner
            } else if p.houses == 0 {
                BuildResult::NotAProperty
            } else if !sells_evenly(s.tiles, tile_index, p.color_group) {
                BuildResult::IncompleteGroup
            } else if p.houses == 5 && s.houses_remaining < 4 {
                BuildResult::NoSupply
            } else {
                BuildResult::Built
            }
        },
        _ => BuildResult::NotAProperty,
    }
}

/// The state after a successful sale: the owner gets half the building cost,
/// the property loses a building, and a house goes back to the supply, or a
/// hotel goes back and four houses come out of it.
pub open spec fn after_sell(s: GameView, tile_index: int) -> GameView {
    let p = s.tiles[tile_index]->Property_0;
    let ci = s.current_player_index as int;
    GameView {
        players: s.players.update(ci, s.current().with_money((s.current().money + p.building_cost / 2) as u32)),
        tiles: s.tiles.update(tile_index, Tile::Property(PropertyTile { houses: (p.houses - 1) as u8, ..p })),
        houses_remaining: if p.houses == 5 { (s.houses_remaining - 4) as u8 } else { (s.houses_remaining + 1) as u8 },
        hotels_remaining: if p.houses == 5 { (s.hotels_remaining + 1) as u8 } else { s.hotels_remaining },
        ..s
    }
}

/// Whether the sale at `tile_index` stays within the integer ranges.
pub open spec fn sell_in_range(s: GameView, tile_index: int) -> bool {
    sell_outcome(s, tile_index) == BuildResult::Built ==> {
        let p = s.tiles[tile_index]->Property_0;
        &&& s.current().money + p.building_cost / 2 <= u32::MAX
        &&& p.houses == 5 ==> s.hotels_remaining + 1 <= u8::MAX
        &&& p.houses != 5 ==> s.houses_remaining + 1 <= u8::MAX
    }
}

/// What the bank lends on tile `t`: half its price.
pub open spec fn mortgage_value(t: Tile) -> u32 {
    t.price() / 2
}

/// What lifting the mortgage on tile `t` costs: the loan plus a tenth of the
/// price as interest.
pub open spec fn unmortgage_cost(t: Tile) -> u32 {
    (t.price() / 2 + t.price() / 10) as u32
}

/// What mortgaging `tile_index` answers, checks taken in order.
pub open spec fn mortgage_outcome(s: GameView, tile_index: int) -> MortgageResult {
    let pid = s.current().id;
    let t = s.tiles[tile_index];
    if !t.is_buyable() {
        MortgageResult::NotAProperty
    } else if t.owner() != Some(pid) {
        MortgageResult::NotOwner
    } else if t.is_mortgaged() {
        MortgageResult::AlreadyMortgaged
    } else if t matches Tile::Property(p) && p.houses > 0 {
        MortgageResult::HasBuildings
    } else {
        MortgageResult::Mortgaged { value: mortgage_value(t) }
    }
}

/// What lifting the mortgage on `tile_index` answers, checks taken in order.
pub open spec fn unmortgage_outcome(s: GameView, tile_index: int) -> MortgageResult {
    let pid = s.current().id;
    let t = s.tiles[tile_index];
    let cost = unmortgage_cost(t);
    if !t.is_buyable() {
        MortgageResult::NotAProperty
    } else if t.owner() != Some(pid) {
        MortgageResult::NotOwner
    } else if !t.is_mortgaged() {
        MortgageResult::NotMortgaged
    } else if s.current().money < cost {
        MortgageResult::InsufficientFunds
    } else {
        MortgageResult::Unmortgaged { cost }
    }
}

/// Build a house (or, on four houses, a hotel) on the property at `tile_index`
/// for the current player.
pub fn build_house(state: &mut GameState, tile_index: usize) -> (r: BuildResult)
    requires
        old(state)@.has_current(),
        tile_index < old(state)@.tiles.len(),
        build_outcome(old(state)@, tile_index as int) == BuildResult::Built
            && old(state)@.tiles[tile_index as int]->Property_0.houses >= 4
            ==> old(state).houses_remaining + 4 <= u8::MAX,
    ensures
        r == build_outcome(old(state)@, tile_index as int),
        r == BuildResult::Built ==> final(state)@ == after_build(old(state)@, tile_index as int),
        r != BuildResult::Built ==> final(state)@ == old(state)@,
{
    let ci = state.current_player_index;
    let player_id = state.players[ci].id;

    let (building_cost, color_group, houses) = match &state.board.tiles[tile_index] {
        Tile::Property(p) => {
            match p.owner {
                Some(o) => { if o != player_id { return BuildResult::NotOwner; } },
                None => { return BuildResult::NotOwner; },
            }
            if p.mortgaged { return BuildResult::NotAProperty; }
            if p.houses >= 5 { return BuildResult::MaxReached; }
            (p.building_cost, p.color_group, p.houses)
        },
        _ => return BuildResult::NotAProperty,
    };

    if !owns_full_group(state, tile_index, &color_group) {
        return BuildResult::IncompleteGroup;
    }

    if !can_build_evenly(state, tile_index, &color_group) {
        return BuildResult::IncompleteGroup;
    }

    if houses < 4 {
        if state.houses_remaining == 0 { return BuildResult::NoSupply; }
    } else {
        if state.hotels_remaining == 0 { return BuildResult::NoSupply; }
    }

    if state.players[ci].money < building_cost {
        return BuildResult::InsufficientFunds;
    }

    let ghost s0 = state@;
    state.players[ci].money -= building_cost;

    if houses < 4 {
        state.houses_remaining -= 1;
    } else {
        state.houses_remaining += 4;
        state.hotels_remaining -= 1;
    }

    if let Tile::Property(p) = &mut state.board.tiles[tile_index] {
        p.houses += 1;
    }
    proof {
        assert(state@.players =~= after_build(s0, tile_index as int).players);
        assert(state@.tiles =~= after_build(s0, tile_index as int).tiles);
    }

    BuildResult::Built
}

/// Sell a house (or a hotel, which leaves four houses) from the property at
/// `tile_index` for half its building cost.
pub fn sell_house(state: &mut GameState, tile_index: usize) -> (r: BuildResult)
    requires
        old(state)@.has_current(),
        tile_index < old(state)@.tiles.len(),
        sell_in_range(old(state)@, tile_index as int),
    ensures
        r == sell_outcome(old(state)@, tile_index as int),
        r == BuildResult::Built ==> final(state)@ == after_sell(old(state)@, tile_index as int),
        r != BuildResult::Built ==> final(state)@ == old(state)@,
{
    let ci = state.current_player_index;
    let player_id = state.players[ci].id;

    let (building_cost, color_group, houses) = match &state.board.tiles[tile_index] {
        Tile::Property(p) => {
            match p.owner {
                Some(o) => { if o != player_id { return BuildResult::NotOwner; } },
                None => { return BuildResult::NotOwner; },
            }
            if p.houses == 0 { return BuildResult::NotAProperty; }
            (p.building_cost, p.color_group, p.houses)
        },
        _ => return BuildResult::NotAProperty,
    };

    if !can_sell_evenly(state, tile_index, &color_group) {
        return BuildResult::IncompleteGroup;
    }
    // Breaking a hotel down takes four houses from the bank.
    if houses == 5 && state.houses_remaining < 4 {
        return BuildResult::NoSupply;
    }

    let ghost s0 = state@;
    let sell_price = building_cost / 2;
    state.players[ci].money += sell_price;

    if houses == 5 {
        state.hotels_remaining += 1;
        state.houses_remaining -= 4;
    } else {
        state.houses_remaining += 1;
    }

    if let Tile::Property(p) = &mut state.board.tiles[tile_index] {
        p.houses -= 1;
    }
    proof {
        assert(state@.players =~= after_sell(s0, tile_index as int).players);
        assert(state@.tiles =~= after_sell(s0, tile_index as int).tiles);
    }

    BuildResult::Built
}

/// Mortgage the property, railroad or utility at `tile_index`: the owner gets
/// half its price.
pub fn mortgage_property(state: &mut GameState, tile_index: usize) -> (r: MortgageResult)
    requires
        old(state)@.has_current(),
        tile_index < old(state)@.tiles.len(),
        mortgage_outcome(old(state)@, tile_index as int) is Mortgaged
            ==> old(state)@.current().money + old(state)@.tiles[tile_index as int].price() / 2 <= u32::MAX,
    ensures
        r == mortgage_outcome(old(state)@, tile_index as int),
        r matches MortgageResult::Mortgaged { value } ==> final(state)@ == old(state)@
            .with_player(
                old(state).current_player_index as int,
                old(state)@.current().with_money((old(state)@.current().money + value) as u32),
            )
            .with_tile(tile_index as int, old(state)@.tiles[tile_index as int].with_mortgaged(true)),
        !(r is Mortgaged) ==> final(state)@ == old(state)@,
{
    let ci = state.current_player_index;
    let player_id = state.players[ci].id;

    let price = match &state.board.tiles[tile_index] {
        Tile::Property(p) => {
            if p.owner != Some(player_id) { return MortgageResult::NotOwner; }
            if p.mortgaged { return MortgageResult::AlreadyMortgaged; }
            if p.houses > 0 { return MortgageResult::HasBuildings; }
            p.price
        },
        Tile::Railroad(r) => {
            if r.owner != Some(player_id) { return MortgageResult::NotOwner; }
            if r.mortgaged { return MortgageResult::AlreadyMortgaged; }
            r.price
        },
        Tile::Utility(u) => {
            if u.owner != Some(player_id) { return MortgageResult::NotOwner; }
            if u.mortgaged { return MortgageResult::AlreadyMortgaged; }
            u.price
        },
        _ => return MortgageResult::NotAProperty,
    };

    let ghost s0 = state@;
    let mortgage_value = price / 2;
    state.players[ci].money += mortgage_value;

    match &mut state.board.tiles[tile_index] {
        Tile::Property(p) => p.mortgaged = true,
        Tile::Railroad(r) => r.mortgaged = true,
        Tile::Utility(u) => u.mortgaged = true,
        _ => {},
    }
    proof {
        let e = s0.with_player(ci as int, s0.current().with_money((s0.current().money + mortgage_value) as u32))
            .with_tile(tile_index as int, s0.tiles[tile_index as int].with_mortgaged(true));
        assert(state@.players =~= e.players);
        assert(state@.tiles =~= e.tiles);
    }

    MortgageResult::Mortgaged { value: mortgage_value }
}

/// Lift the mortgage on the tile at `tile_index`: the owner pays half its
/// price plus ten percent of it.
pub fn unmortgage_property(state: &mut GameState, tile_index: usize) -> (r: MortgageResult)
    requires
        old(state)@.has_current(),
        tile_index < old(state)@.tiles.len(),
    ensures
        r == unmortgage_outcome(old(state)@, tile_index as int),
        r matches MortgageResult::Unmortgaged { cost } ==> final(state)@ == old(state)@
            .with_player(
                old(state).current_player_index as int,
                old(state)@.current().with_money((old(state)@.current().money - cost) as u32),
            )
            .with_tile(tile_index as int, old(state)@.tiles[tile_index as int].with_mortgaged(false)),
        !(r is Unmortgaged) ==> final(state)@ == old(state)@,
{
    let ci = state.current_player_index;
    let player_id = state.players[ci].id;

    match &state.board.tiles[tile_index] {
        Tile::Property(p) => {
            if p.owner != Some(player_id) { return MortgageResult::NotOwner; }
            if !p.mortgaged { return MortgageResult::NotMortgaged; }
        },
        Tile::Railroad(r) => {
            if r.owner != Some(player_id) { return MortgageResult::NotOwner; }
            if !r.mortgaged { return MortgageResult::NotMortgaged; }
        },
        Tile::Utility(u) => {
            if u.owner != Some(player_id) { return MortgageResult::NotOwner; }
            if !u.mortgaged { return MortgageResult::NotMortgaged; }
        },
        _ => return MortgageResult::NotAProperty,
    }

    let price = get_price(&state.board.tiles[tile_index]);
    let unmortgage_cost = (price / 2) + (price / 10);

    if state.players[ci].money < unmortgage_cost {
        return MortgageResult::InsufficientFunds;
    }

    let ghost s0 = state@;
    state.players[ci].money -= unmortgage_cost;

    match &mut state.board.tiles[tile_index] {
        Tile::Property(p) => p.mortgaged = false,
        Tile::Railroad(r) => r.mortgaged = false,
        Tile::Utility(u) => u.mortgaged = false,
        _ => {},
    }
    proof {
        let e = s0.with_player(ci as int, s0.current().with_money((s0.current().money - unmortgage_cost) as u32))
            .with_tile(tile_index as int, s0.tiles[tile_index as int].with_mortgaged(false));
        assert(state@.players =~= e.players);
        assert(state@.tiles =~= e.tiles);
    }

    MortgageResult::Unmortgaged { cost: unmortgage_cost }
}

pub(crate) fn get_price(tile: &Tile) -> (p: u32)
    ensures
        p == tile.price(),
{
    match tile {
        Tile::Property(p) => p.price,
        Tile::Railroad(r) => r.price,
        Tile::Utility(u) => u.price,
        _ => 0,
    }
}

fn can_build_evenly(state: &GameState, tile_index: usize, group: &ColorGroup) -> (b: bool)
    requires
        tile_index < state@.tiles.len(),
    ensures
        b == builds_evenly(state@.tiles, tile_index as int, *group),
{
    let target_houses = match &state.board.tiles[tile_index] {
        Tile::Property(p) => p.houses,
        _ => return false,
    };
    let n = state.board.tiles.len();
    let mut i: usize = 0;
    while i < n
        invariant
            n == state@.tiles.len(),
            i <= n,
            builds_evenly(state@.tiles, tile_index as int, *group)
                == (forall|j: int| 0 <= j < n ==> #[trigger] in_group_at_least(state@.tiles[j], *group, target_houses)),
            forall|j: int| 0 <= j < i ==> #[trigger] in_group_at_least(state@.tiles[j], *group, target_houses),
        decreases n - i,
    {
        match &state.board.tiles[i] {
            Tile::Property(p) => {
                if p.color_group == *group && p.houses < target_houses {
                    assert(!in_group_at_least(state@.tiles[i as int], *group, target_houses));
                    return false;
                }
            },
            _ => {},
        }
        i += 1;
    }
    true
}

fn can_sell_evenly(state: &GameState, tile_index: usize, group: &ColorGroup) -> (b: bool)
    requires
        tile_index < state@.tiles.len(),
    ensures
        b == sells_evenly(state@.tiles, tile_index as int, *group),
{
    let target_houses = match &state.board.tiles[tile_index] {
        Tile::Property(p) => p.houses,
        _ => return false,
    };
    let n = state.board.tiles.len();
    let mut i: usize = 0;
    while i < n
        invariant
            n == state@.tiles.len(),
            i <= n,
            sells_evenly(state@.tiles, tile_index as int, *group)
                == (forall|j: int| 0 <= j < n ==> #[trigger] in_group_at_most(state@.tiles[j], *group, target_houses)),
            forall|j: int| 0 <= j < i ==> #[trigger] in_group_at_most(state@.tiles[j], *group, target_houses),
        decreases n - i,
    {
        match &state.board.tiles[i] {
            Tile::Property(p) => {
                if p.color_group == *group && p.houses > target_houses {
                    assert(!in_group_at_most(state@.tiles[i as int], *group, target_houses));
                    return false;
                }
            },
            _ => {},
        }
        i += 1;
    }
    true
}

} // verus!
