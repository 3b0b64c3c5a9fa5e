use vstd::prelude::*;
use crate::bankruptcy::{bankruptcy_settleable, is_insolvent, indices_on_board};
use crate::board::Tile;
use crate::buildings::{build_outcome, sell_outcome, sell_in_range, mortgage_outcome, builds_evenly, BuildResult, MortgageResult};
use crate::buying::auction_settleable;
use crate::dice::DiceRoll;
use crate::engine::{engine_safe, roll_safe, rent_safe, pass_safe, seated, turn_gate, taxed};
use crate::jail::{jail_roll_in_range, released};
use crate::lobby::{Lobby, LobbyView, LobbyState, MAX_PLAYERS};
use crate::movement::{advance_player, advance_in_range, advance_result, after_advance, target_position, passes_go, MoveResult};
use crate::network::ClientMessage;
use crate::rent::{owns_full_group, owns_full_group_spec, rent_computable, rent_due};
use crate::state::{GameState, GameView, TurnPhase, find_id, find_player_index, lemma_find_id_found};
use crate::trading::{trade_in_range, trade_outcome, list_checkable, list_issue, tile_issue, TradeOffer, TradeResult, lemma_issue_not_completed};

verus! {

/// Moving a player at `pos` with `money` by `roll` on a board of `len`
/// tiles stays within the integer ranges.
pub open spec fn move_fits(len: nat, pos: usize, money: u32, roll: DiceRoll, go_salary: u32) -> bool {
    &&& len > 0
    &&& roll.die1 + roll.die2 <= u8::MAX
    &&& pos + roll.die1 + roll.die2 <= usize::MAX
    &&& passes_go(pos, target_position(pos, roll, len)) ==> money + go_salary <= u32::MAX
}

fn check_move(len: usize, pos: usize, money: u32, roll: DiceRoll, go_salary: u32) -> (b: bool)
    ensures
        b == move_fits(len as nat, pos, money, roll, go_salary),
{
    if len == 0 {
        return false;
    }
    if roll.die1 as u16 + roll.die2 as u16 > u8::MAX as u16 {
        return false;
    }
    let step = (roll.die1 + roll.die2) as usize;
    if pos > usize::MAX - step {
        return false;
    }
    let new_pos = (pos + step) % len;
    if new_pos < pos || new_pos == 0 {
        (money as u64) + (go_salary as u64) <= u32::MAX as u64
    } else {
        true
    }
}

fn current_seated(g: &GameState) -> (b: bool)
    ensures
        b == g@.has_current(),
{
    g.current_player_index < g.players.len()
}

/// Computing the rent on `tile_index` for `roll` stays in bounds and in range.
fn check_rent(g: &GameState, tile_index: usize, roll: DiceRoll) -> (b: bool)
    ensures
        b == rent_computable(g@.tiles, tile_index as int, roll),
{
    if tile_index >= g.board.tiles.len() {
        return false;
    }
    match &g.board.tiles[tile_index] {
        Tile::Property(p) => {
            if p.mortgaged {
                return true;
            }
            if p.houses >= 6 {
                return false;
            }
            let base = p.rent[p.houses as usize];
            if p.houses == 0 && owns_full_group(g, tile_index, &p.color_group) {
                (base as u64) * 2 <= u32::MAX as u64
            } else {
                true
            }
        },
        Tile::Railroad(r) => r.mortgaged || r.owner.is_some(),
        Tile::Utility(u) => u.mortgaged || (u.owner.is_some() && roll.die1 as u16 + roll.die2 as u16 <= u8::MAX as u16),
        _ => true,
    }
}

fn check_roll(lobby: &Lobby, pid: Option<u8>, roll: DiceRoll) -> (b: bool)
    ensures
        b == roll_safe(lobby@, pid, roll),
{
    let id = match pid {
        Some(i) => i,
        None => return true,
    };
    let g = match &lobby.game {
        Some(g) => g,
        None => return true,
    };
    if !current_seated(g) {
        return false;
    }
    let ci = g.current_player_index;
    if g.players[ci].id != id || g.turn_phase != TurnPhase::WaitingForRoll {
        return true;
    }
    let go = lobby.ruleset.go_salary;
    let p = &g.players[ci];
    if !check_move(g.board.tiles.len(), p.position, p.money, roll, go) {
        return false;
    }
    let mut moved = g.snapshot();
    let res = advance_player(&mut moved, &roll, go);
    match res {
        MoveResult::LandedOnOwnedProperty { tile_index, owner: _ } => check_rent(&moved, tile_index, roll),
        _ => true,
    }
}

/// Exactly what building on `tile_index` answers, without building.
#[verifier::loop_isolation(false)]
fn preview_build(g: &GameState, tile_index: usize) -> (r: BuildResult)
    requires
        g@.has_current(),
        tile_index < g@.tiles.len(),
    ensures
        r == build_outcome(g@, tile_index as int),
{
    let ci = g.current_player_index;
    let player_id = g.players[ci].id;
    let (building_cost, color_group, houses) = match &g.board.tiles[tile_index] {
        Tile::Property(p) => {
            if p.owner != Some(player_id) { return BuildResult::NotOwner; }
            if p.mortgaged { return BuildResult::NotAProperty; }
            if p.houses >= 5 { return BuildResult::MaxReached; }
            (p.building_cost, p.color_group, p.houses)
        },
        _ => return BuildResult::NotAProperty,
    };
    if !owns_full_group(g, tile_index, &color_group) {
        return BuildResult::IncompleteGroup;
    }
    let n = g.board.tiles.len();
    let mut i: usize = 0;
    while i < n
        invariant
            n == g@.tiles.len(),
            i <= n,
            tile_index < n,
            g@.tiles[tile_index as int] matches Tile::Property(p) && p.houses == houses && p.color_group == color_group,
            forall|j: int| 0 <= j < i ==> #[trigger] crate::buildings::in_group_at_least(g@.tiles[j], color_group, houses),
        decreases n - i,
    {
        match &g.board.tiles[i] {
            Tile::Property(p) => {
                if p.color_group == color_group && p.houses < houses {
                    assert(!crate::buildings::in_group_at_least(g@.tiles[i as int], color_group, houses));
                    assert(!builds_evenly(g@.tiles, tile_index as int, color_group));
                    return BuildResult::IncompleteGroup;
                }
            },
            _ => {},
        }
        i += 1;
    }
    if houses < 4 {
        if g.houses_remaining == 0 { return BuildResult::NoSupply; }
    } else {
        if g.hotels_remaining == 0 { return BuildResult::NoSupply; }
    }
    if g.players[ci].money < building_cost {
        return BuildResult::InsufficientFunds;
    }
    BuildResult::Built
}

/// Exactly what selling from `tile_index` answers, without selling.
#[verifier::loop_isolation(false)]
fn preview_sell(g: &GameState, tile_index: usize) -> (r: BuildResult)
    requires
        g@.has_current(),
        tile_index < g@.tiles.len(),
    ensures
        r == sell_outcome(g@, tile_index as int),
{
    let ci = g.current_player_index;
    let player_id = g.players[ci].id;
    let (color_group, houses) = match &g.board.tiles[tile_index] {
        Tile::Property(p) => {
            if p.owner != Some(player_id) { return BuildResult::NotOwner; }
            if p.houses == 0 { return BuildResult::NotAProperty; }
            (p.color_group, p.houses)
        },
        _ => return BuildResult::NotAProperty,
    };
    let n = g.board.tiles.len();
    let mut i: usize = 0;
    while i < n
        invariant
            n == g@.tiles.len(),
            i <= n,
            tile_index < n,
            g@.tiles[tile_index as int] matches Tile::Property(p) && p.houses == houses && p.color_group == color_group,
            forall|j: int| 0 <= j < i ==> #[trigger] crate::buildings::in_group_at_most(g@.tiles[j], color_group, houses),
        decreases n - i,
    {
        match &g.board.tiles[i] {
            Tile::Property(p) => {
                if p.color_group == color_group && p.houses > houses {
                    assert(!crate::buildings::in_group_at_most(g@.tiles[i as int], color_group, houses));
                    assert(!crate::buildings::sells_evenly(g@.tiles, tile_index as int, color_group));
                    return BuildResult::IncompleteGroup;
                }
            },
            _ => {},
        }
        i += 1;
    }
    if houses == 5 && g.houses_remaining < 4 {
        return BuildResult::NoSupply;
    }
    BuildResult::Built
}

/// Exactly what mortgaging `tile_index` answers, without mortgaging.
fn preview_mortgage(g: &GameState, tile_index: usize) -> (r: MortgageResult)
    requires
        g@.has_current(),
        tile_index < g@.tiles.len(),
    ensures
        r == mortgage_outcome(g@, tile_index as int),
{
    let player_id = g.players[g.current_player_index].id;
    match &g.board.tiles[tile_index] {
        Tile::Property(p) => {
            if p.owner != Some(player_id) { return MortgageResult::NotOwner; }
            if p.mortgaged { return MortgageResult::AlreadyMortgaged; }
            if p.houses > 0 { return MortgageResult::HasBuildings; }
            MortgageResult::Mortgaged { value: p.price / 2 }
        },
        Tile::Railroad(r) => {
            if r.owner != Some(player_id) { return MortgageResult::NotOwner; }
            if r.mortgaged { return MortgageResult::AlreadyMortgaged; }
            MortgageResult::Mortgaged { value: r.price / 2 }
        },
        Tile::Utility(u) => {
            if u.owner != Some(player_id) { return MortgageResult::NotOwner; }
            if u.mortgaged { return MortgageResult::AlreadyMortgaged; }
            MortgageResult::Mortgaged { value: u.price / 2 }
        },
        _ => MortgageResult::NotAProperty,
    }
}

/// The id that passes the turn gate, if any, when the current seat is valid.
fn gate_id(lobby: &Lobby, pid: Option<u8>) -> (r: Option<u8>)
    requires
        seated(lobby@, pid),
    ensures
        r == (if turn_gate(lobby@, pid) is None { pid } else { None }),
{
    let id = match pid {
        Some(i) => i,
        None => return None,
    };
    match &lobby.game {
        None => None,
        Some(g) => if g.players[g.current_player_index].id == id { Some(id) } else { None },
    }
}

fn check_seated(lobby: &Lobby, pid: Option<u8>) -> (b: bool)
    ensures
        b == seated(lobby@, pid),
{
    match (pid, &lobby.game) {
        (Some(_), Some(g)) => current_seated(g),
        _ => true,
    }
}

fn check_auction(g: &GameState) -> (b: bool)
    ensures
        b == auction_settleable(g@),
{
    proof {
        if g@.turn_phase is Auction {
            lemma_find_id_found(g@.players, g@.turn_phase->highest_bidder);
        }
    }
    match g.turn_phase {
        TurnPhase::Auction { tile_index, highest_bid, highest_bidder } => {
            if highest_bid == 0 {
                return true;
            }
            match find_player_index(&g.players, highest_bidder) {
                Some(k) => tile_index < g.board.tiles.len() && g.players[k].money >= highest_bid,
                None => true,
            }
        },
        _ => true,
    }
}

/// Checking `list` in order meets no index off the board before the first issue.
fn check_list(g: &GameState, list: &Vec<usize>, owner: u8) -> (b: bool)
    ensures
        b == list_checkable(g@.tiles, list@, owner),
{
    let ghost tiles = g@.tiles;
    let mut k: usize = 0;
    proof { assert(list@.skip(0) =~= list@); }
    while k < list.len()
        invariant
            tiles == g@.tiles,
            k <= list@.len(),
            list_checkable(tiles, list@, owner) == list_checkable(tiles, list@.skip(k as int), owner),
        decreases list@.len() - k,
    {
        let t = list[k];
        proof {
            assert(list@.skip(k as int)[0] == t);
            assert(list@.skip(k as int).drop_first() =~= list@.skip(k + 1));
        }
        if t >= g.board.tiles.len() {
            return false;
        }
        let clean = match &g.board.tiles[t] {
            Tile::Property(p) => p.owner == Some(owner) && p.houses == 0,
            Tile::Railroad(r) => r.owner == Some(owner),
            Tile::Utility(u) => u.owner == Some(owner),
            _ => false,
        };
        proof { assert(clean == (tile_issue(tiles[t as int], t, owner) is None)); }
        if !clean {
            return true;
        }
        k += 1;
    }
    proof { assert(list@.skip(k as int).len() == 0); }
    true
}

/// The first issue among the tiles of `list`, when checking it is safe.
fn list_problem(g: &GameState, list: &Vec<usize>, owner: u8) -> (r: bool)
    requires
        list_checkable(g@.tiles, list@, owner),
    ensures
        r == (list_issue(g@.tiles, list@, owner) is Some),
{
    let ghost tiles = g@.tiles;
    let mut k: usize = 0;
    proof { assert(list@.skip(0) =~= list@); }
    while k < list.len()
        invariant
            tiles == g@.tiles,
            k <= list@.len(),
            (list_issue(tiles, list@, owner) is Some) == (list_issue(tiles, list@.skip(k as int), owner) is Some),
            list_checkable(tiles, list@.skip(k as int), owner),
        decreases list@.len() - k,
    {
        let t = list[k];
        proof {
            assert(list@.skip(k as int)[0] == t);
            assert(list@.skip(k as int).drop_first() =~= list@.skip(k + 1));
        }
        let clean = match &g.board.tiles[t] {
            Tile::Property(p) => p.owner == Some(owner) && p.houses == 0,
            Tile::Railroad(r) => r.owner == Some(owner),
            Tile::Utility(u) => u.owner == Some(owner),
            _ => false,
        };
        proof { assert(clean == (tile_issue(tiles[t as int], t, owner) is None)); }
        if !clean {
            return true;
        }
        k += 1;
    }
    proof { assert(list@.skip(k as int).len() == 0); }
    false
}

fn check_trade(g: &GameState, offer: &TradeOffer) -> (b: bool)
    ensures
        b == trade_in_range(g@, *offer),
{
    proof {
        lemma_find_id_found(g@.players, offer.from_player);
        lemma_find_id_found(g@.players, offer.to_player);
        lemma_issue_not_completed(g@.tiles, offer.offered_properties@, offer.from_player);
        lemma_issue_not_completed(g@.tiles, offer.requested_properties@, offer.to_player);
    }
    let fi = match find_player_index(&g.players, offer.from_player) {
        Some(i) => i,
        None => return true,
    };
    let ti = match find_player_index(&g.players, offer.to_player) {
        Some(i) => i,
        None => return true,
    };
    if !check_list(g, &offer.offered_properties, offer.from_player) {
        return false;
    }
    if list_problem(g, &offer.offered_properties, offer.from_player) {
        return true;
    }
    if !check_list(g, &offer.requested_properties, offer.to_player) {
        return false;
    }
    if list_problem(g, &offer.requested_properties, offer.to_player) {
        return true;
    }
    let om = offer.offered_money as u64;
    let rm = offer.requested_money as u64;
    let from_money = g.players[fi].money as u64;
    let to_money = g.players[ti].money as u64;
    if from_money < om || to_money < rm {
        return true;
    }
    // cash after each step of the payment, seat by seat
    let m1_from = from_money - om;
    let m1_to = if ti == fi { m1_from } else { to_money };
    if m1_to + om > u32::MAX as u64 {
        return false;
    }
    let m2_to = m1_to + om;
    let m2_from = if ti == fi { m2_to } else { m1_from };
    let m3_to = m2_to - rm;
    let m3_from = if ti == fi { m3_to } else { m2_from };
    m3_from + rm <= u32::MAX as u64
}

#[verifier::loop_isolation(false)]
fn check_bankruptcy(g: &GameState, id: u8) -> (b: bool)
    ensures
        b == bankruptcy_settleable(g@, id, None),
{
    proof { lemma_find_id_found(g@.players, id); }
    let bi = match find_player_index(&g.players, id) {
        Some(i) => i,
        None => return true,
    };
    if !(g.players[bi].money == 0 || g.players[bi].bankrupt) {
        return true;
    }
    let props = &g.players[bi].properties;
    let mut k: usize = 0;
    while k < props.len()
        invariant
            k <= props@.len(),
            props@ == g@.players[bi as int].properties,
            forall|j: int| 0 <= j < k ==> #[trigger] props@[j] < g@.tiles.len(),
        decreases props@.len() - k,
    {
        if props[k] >= g.board.tiles.len() {
            assert(!indices_on_board(g@.tiles, g@.players[bi as int].properties));
            return false;
        }
        k += 1;
    }
    true
}

/// Whether handling `msg` from `pid` with `roll` stays in bounds and in
/// range, so that `handle_message` may be called.
pub fn step_is_safe(lobby: &Lobby, pid: Option<u8>, msg: &ClientMessage, roll: DiceRoll) -> (b: bool)
    ensures
        b == engine_safe(lobby@, pid, *msg, roll),
{
    let rules = &lobby.ruleset;
    match msg {
        ClientMessage::Join { name: _, token: _ } => {
            if lobby.players.len() >= MAX_PLAYERS as usize || lobby.state == LobbyState::InGame {
                true
            } else {
                lobby.next_id < u8::MAX
            }
        },
        ClientMessage::RollDice => check_roll(lobby, pid, roll),
        ClientMessage::BuyProperty => {
            if !check_seated(lobby, pid) { return false; }
            match (gate_id(lobby, pid), &lobby.game) {
                (Some(_), Some(g)) => match g.turn_phase {
                    TurnPhase::BuyDecision { tile_index } => tile_index < g.board.tiles.len(),
                    _ => true,
                },
                _ => true,
            }
        },
        ClientMessage::DeclineProperty => check_seated(lobby, pid),
        ClientMessage::PayRent => {
            if !check_seated(lobby, pid) { return false; }
            match (gate_id(lobby, pid), &lobby.game) {
                (Some(_), Some(g)) => match g.turn_phase {
                    TurnPhase::PayingRent { amount, to_player } => {
                        let ghost s = g@;
                        let ci = g.current_player_index;
                        let payer_money = g.players[ci].money;
                        let left = if payer_money >= amount { payer_money - amount } else { 0 };
                        proof { lemma_find_id_found(taxed(s, amount).players, to_player); }
                        match find_player_index(&g.players, to_player) {
                            Some(k) => {
                                proof {
                                    assert(taxed(s, amount).players =~= s.players.update(ci as int,
                                        s.players[ci as int].with_money(left)));
                                    crate::state::lemma_find_id_found(s.players, to_player);
                                    assert(find_id(taxed(s, amount).players, to_player) == find_id(s.players, to_player)) by {
                                        lemma_find_id_same_ids(s.players, taxed(s, amount).players, to_player);
                                    }
                                }
                                let money = if k == ci { left } else { g.players[k].money };
                                (money as u64) + (amount as u64) <= u32::MAX as u64
                            },
                            None => {
                                proof {
                                    assert(find_id(taxed(s, amount).players, to_player) == find_id(s.players, to_player)) by {
                                        lemma_find_id_same_ids(s.players, taxed(s, amount).players, to_player);
                                    }
                                }
                                true
                            },
                        }
                    },
                    _ => true,
                },
                _ => true,
            }
        },
        ClientMessage::PassBid => {
            match (pid, &lobby.game) {
                (Some(id), Some(g)) => {
                    let ghost s = g@;
                    let listed = crate::engine::lists_id(&g.auction_passers, id);
                    let count = g.auction_passers.len();
                    let active_count = crate::bankruptcy::active_ids(&g.players).len();
                    let all_passed = if listed { count >= active_count } else { active_count == 0 || count >= active_count - 1 };
                    if all_passed {
                        // the auction as it stands is what gets settled
                        check_auction(g)
                    } else {
                        true
                    }
                },
                _ => true,
            }
        },
        ClientMessage::FinalizeAuction => match &lobby.game {
            Some(g) => check_auction(g),
            None => true,
        },
        ClientMessage::PayJailFine => check_seated(lobby, pid),
        ClientMessage::UseJailCard => check_seated(lobby, pid),
        ClientMessage::RollForJail => {
            if !check_seated(lobby, pid) { return false; }
            match (gate_id(lobby, pid), &lobby.game) {
                (Some(_), Some(g)) => {
                    let p = &g.players[g.current_player_index];
                    let len = g.board.tiles.len();
                    if rules.doubles_to_exit_jail && roll.die1 == roll.die2 {
                        check_move(len, p.position, p.money, roll, rules.go_salary)
                    } else if p.jail_turns == u8::MAX {
                        false
                    } else if p.jail_turns + 1 >= rules.max_jail_turns && p.money >= rules.jail_fine {
                        check_move(len, p.position, p.money - rules.jail_fine, roll, rules.go_salary)
                    } else {
                        true
                    }
                },
                _ => true,
            }
        },
        ClientMessage::BuildHouse { tile_index } => {
            if !check_seated(lobby, pid) { return false; }
            match (gate_id(lobby, pid), &lobby.game) {
                (Some(_), Some(g)) => {
                    if *tile_index >= g.board.tiles.len() {
                        return false;
                    }
                    match preview_build(g, *tile_index) {
                        BuildResult::Built => match &g.board.tiles[*tile_index] {
                            Tile::Property(p) => p.houses < 4 || g.houses_remaining <= u8::MAX - 4,
                            _ => true,
                        },
                        _ => true,
                    }
                },
                _ => true,
            }
        },
        ClientMessage::SellHouse { tile_index } => {
            if !check_seated(lobby, pid) { return false; }
            match (gate_id(lobby, pid), &lobby.game) {
                (Some(_), Some(g)) => {
                    if *tile_index >= g.board.tiles.len() {
                        return false;
                    }
                    match preview_sell(g, *tile_index) {
                        BuildResult::Built => match &g.board.tiles[*tile_index] {
                            Tile::Property(p) => {
                                let money = g.players[g.current_player_index].money as u64;
                                let fits_money = money + (p.building_cost / 2) as u64 <= u32::MAX as u64;
                                if p.houses == 5 {
                                    fits_money && g.hotels_remaining < u8::MAX
                                } else {
                                    fits_money && g.houses_remaining < u8::MAX
                                }
                            },
                            _ => true,
                        },
                        _ => true,
                    }
                },
                _ => true,
            }
        },
        ClientMessage::Mortgage { tile_index } => {
            if !check_seated(lobby, pid) { return false; }
            match (gate_id(lobby, pid), &lobby.game) {
                (Some(_), Some(g)) => {
                    if *tile_index >= g.board.tiles.len() {
                        return false;
                    }
                    match preview_mortgage(g, *tile_index) {
                        MortgageResult::Mortgaged { value } => {
                            let money = g.players[g.current_player_index].money as u64;
                            money + value as u64 <= u32::MAX as u64
                        },
                        _ => true,
                    }
                },
                _ => true,
            }
        },
        ClientMessage::Unmortgage { tile_index } => {
            if !check_seated(lobby, pid) { return false; }
            match (gate_id(lobby, pid), &lobby.game) {
                (Some(_), Some(g)) => *tile_index < g.board.tiles.len(),
                _ => true,
            }
        },
        ClientMessage::AcceptTrade => match (&lobby.pending_trade, &lobby.game) {
            (Some(offer), Some(g)) => check_trade(g, offer),
            _ => true,
        },
        ClientMessage::EndTurn => {
            if !check_seated(lobby, pid) { return false; }
            match (gate_id(lobby, pid), &lobby.game) {
                (Some(_), Some(g)) => g.turn_number < u32::MAX,
                _ => true,
            }
        },
        ClientMessage::DeclareBankruptcy => match (pid, &lobby.game) {
            (Some(id), Some(g)) => check_bankruptcy(g, id),
            _ => true,
        },
        _ => true,
    }
}

/// Changing only cash keeps who is found under an id.
pub proof fn lemma_find_id_same_ids(a: Seq<crate::player::PlayerView>, b: Seq<crate::player::PlayerView>, id: u8)
    requires
        a.len() == b.len(),
        forall|i: int| 0 <= i < a.len() ==> a[i].id == b[i].id,
    ensures
        find_id(a, id) == find_id(b, id),
    decreases a.len(),
{
    if a.len() > 0 {
        lemma_find_id_same_ids(a.drop_first(), b.drop_first(), id);
    }
}

} // verus!
