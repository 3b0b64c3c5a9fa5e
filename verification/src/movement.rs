use vstd::prelude::*;
use crate::board::Tile;
use crate::dice::DiceRoll;
use crate::player::PlayerView;
use crate::state::{GameState, GameView, TurnPhase};

verus! {

/// Result of moving a player: tells the engine what to do next.
#[derive(Debug, Clone, Copy, PartialEq, Eq, Structural)]
pub enum MoveResult {
    /// Player landed on an unowned buyable tile
    LandedOnProperty { tile_index: usize },
    /// Player landed on a tile owned by another player
    LandedOnOwnedProperty { tile_index: usize, owner: u8 },
    /// Player landed on or passed Go
    PassedGo,
    /// Player was sent to jail
    SentToJail,
    /// Player landed on a tax tile
    LandedOnTax { amount: u32 },
    /// Player landed on Community Chest
    LandedOnCommunityChest { tile_index: usize },
    /// Player landed on Chance
    LandedOnChance { tile_index: usize },
    /// Nothing special: Free Parking, Jail (just visiting), own property
    NoEffect,
}

/// The tile index of the jail.
pub const JAIL_POSITION: usize = 10;

/// Where a roll takes a player standing on `pos` on a board of `size` tiles.
pub open spec fn target_position(pos: usize, roll: DiceRoll, size: nat) -> usize {
    ((pos + roll.die1 + roll.die2) % (size as int)) as usize
}

/// Moving from `old_pos` to `new_pos` passes or lands on Go.
pub open spec fn passes_go(old_pos: usize, new_pos: usize) -> bool {
    new_pos < old_pos || new_pos == 0
}

/// The current player sent to jail.
pub open spec fn jailed(s: GameView) -> GameView {
    let p = s.current();
    s.with_player(
        s.current_player_index as int,
        PlayerView { position: JAIL_POSITION, in_jail: true, jail_turns: 0, ..p },
    ).with_phase(TurnPhase::JailDecision)
}

/// What landing on `tile_index` means for the current player.
pub open spec fn landing_result(s: GameView, tile_index: usize, passed_go: bool) -> MoveResult {
    let me = s.current().id;
    match s.tiles[tile_index as int] {
        Tile::Go => MoveResult::PassedGo,
        Tile::GoToJail => MoveResult::SentToJail,
        Tile::Tax(t) => MoveResult::LandedOnTax { amount: t.amount },
        Tile::CommunityChest => MoveResult::LandedOnCommunityChest { tile_index },
        Tile::Chance => MoveResult::LandedOnChance { tile_index },
        Tile::Jail | Tile::FreeParking => if passed_go { MoveResult::PassedGo } else { MoveResult::NoEffect },
        _ => match s.tiles[tile_index as int].owner() {
            None => MoveResult::LandedOnProperty { tile_index },
            Some(owner) => if owner == me {
                MoveResult::NoEffect
            } else {
                MoveResult::LandedOnOwnedProperty { tile_index, owner }
            },
        },
    }
}

/// The state after landing on `tile_index`: only Go To Jail changes it.
pub open spec fn after_landing(s: GameView, tile_index: usize) -> GameView {
    if s.tiles[tile_index as int] is GoToJail { jailed(s) } else { s }
}

/// The state after the move itself, before the landing is resolved: new
/// position, salary when passing Go, the roll recorded, phase `PostRoll`.
pub open spec fn moved(s: GameView, roll: DiceRoll, go_salary: u32) -> GameView {
    let p = s.current();
    let new_pos = target_position(p.position, roll, s.tiles.len());
    let money = if passes_go(p.position, new_pos) { (p.money + go_salary) as u32 } else { p.money };
    GameView {
        players: s.players.update(s.current_player_index as int, PlayerView { position: new_pos, money, ..p }),
        last_roll: Some((roll.die1, roll.die2)),
        turn_phase: TurnPhase::PostRoll,
        ..s
    }
}

/// The full effect of advancing the current player by `roll`.
pub open spec fn after_advance(s: GameView, roll: DiceRoll, go_salary: u32) -> GameView {
    let new_pos = target_position(s.current().position, roll, s.tiles.len());
    after_landing(moved(s, roll, go_salary), new_pos)
}

/// What advancing the current player by `roll` answers.
pub open spec fn advance_result(s: GameView, roll: DiceRoll, go_salary: u32) -> MoveResult {
    let new_pos = target_position(s.current().position, roll, s.tiles.len());
    landing_result(moved(s, roll, go_salary), new_pos, passes_go(s.current().position, new_pos))
}

/// Advancing by `roll` stays within the integer ranges.
pub open spec fn advance_in_range(s: GameView, roll: DiceRoll, go_salary: u32) -> bool {
    let p = s.current();
    &&& s.has_current()
    &&& s.tiles.len() > 0
    &&& roll.die1 + roll.die2 <= u8::MAX
    &&& p.position + roll.die1 + roll.die2 <= usize::MAX
    &&& passes_go(p.position, target_position(p.position, roll, s.tiles.len())) ==> p.money + go_salary <= u32::MAX
}

/// Advance the current player by the dice roll, handle Go, handle Go To Jail.
/// Returns what the engine needs to act on next.
pub fn advance_player(state: &mut GameState, roll: &DiceRoll, go_salary: u32) -> (r: MoveResult)
    requires
        advance_in_range(old(state)@, *roll, go_salary),
    ensures
        r == advance_result(old(state)@, *roll, go_salary),
        final(state)@ == after_advance(old(state)@, *roll, go_salary),
{
    let board_size = state.board.tile_count();
    let ci = state.current_player_index;
    let old_pos = state.players[ci].position;
    let new_pos = (old_pos + roll.total() as usize) % board_size;

    // Check if the player passed or landed on Go
    let passed_go = new_pos < old_pos || new_pos == 0;

    let ghost s0 = state@;
    // Update position
    state.players[ci].position = new_pos;

    // Pay the Go salary before anything else
    if passed_go {
        state.players[ci].money += go_salary;
    }

    // Record the roll
    state.last_roll = Some((roll.die1, roll.die2));
    state.turn_phase = TurnPhase::PostRoll;
    proof {
        assert(state@.players =~= moved(s0, *roll, go_salary).players);
        assert(state@ =~= moved(s0, *roll, go_salary));
    }

    // Check what tile we landed on
    resolve_landing(state, new_pos, passed_go)
}

fn resolve_landing(state: &mut GameState, tile_index: usize, passed_go: bool) -> (r: MoveResult)
    requires
        old(state)@.has_current(),
        tile_index < old(state)@.tiles.len(),
    ensures
        r == landing_result(old(state)@, tile_index, passed_go),
        final(state)@ == after_landing(old(state)@, tile_index),
{
    let me = state.players[state.current_player_index].id;
    let r = match &state.board.tiles[tile_index] {
        Tile::Go => MoveResult::PassedGo,
        Tile::GoToJail => MoveResult::SentToJail,
        Tile::Tax(t) => MoveResult::LandedOnTax { amount: t.amount },
        Tile::CommunityChest => MoveResult::LandedOnCommunityChest { tile_index },
        Tile::Chance => MoveResult::LandedOnChance { tile_index },
        Tile::Property(p) => match p.owner {
            None => MoveResult::LandedOnProperty { tile_index },
            Some(owner) => {
                if owner == me {
                    MoveResult::NoEffect
                } else {
                    MoveResult::LandedOnOwnedProperty { tile_index, owner }
                }
            },
        },
        Tile::Railroad(rr) => match rr.owner {
            None => MoveResult::LandedOnProperty { tile_index },
            Some(owner) => {
                if owner == me {
                    MoveResult::NoEffect
                } else {
                    MoveResult::LandedOnOwnedProperty { tile_index, owner }
                }
            },
        },
        Tile::Utility(u) => match u.owner {
            None => MoveResult::LandedOnProperty { tile_index },
            Some(owner) => {
                if owner == me {
                    MoveResult::NoEffect
                } else {
                    MoveResult::LandedOnOwnedProperty { tile_index, owner }
                }
            },
        },
        Tile::Jail | Tile::FreeParking => {
            if passed_go {
                MoveResult::PassedGo
            } else {
                MoveResult::NoEffect
            }
        },
    };
    if let MoveResult::SentToJail = r {
        send_to_jail(state);
    }
    r
}

/// Send the current player to jail: position 10, in-jail flag set.
pub fn send_to_jail(state: &mut GameState)
    requires
        old(state)@.has_current(),
    ensures
        final(state)@ == jailed(old(state)@),
{
    let ghost s0 = state@;
    let ci = state.current_player_index;
    state.players[ci].position = JAIL_POSITION; // the jail is always tile 10
    state.players[ci].in_jail = true;
    state.players[ci].jail_turns = 0;
    state.turn_phase = TurnPhase::JailDecision;
    proof {
        assert(state@.players =~= jailed(s0).players);
    }
}

} // verus!
