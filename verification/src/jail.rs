use vstd::prelude::*;
use crate::dice::DiceRoll;
use crate::movement::{advance_player, advance_in_range, after_advance};
use crate::player::PlayerView;
use crate::state::{GameState, GameView, TurnPhase};

verus! {

#[derive(Debug, Clone, Copy, PartialEq, Eq, Structural)]
pub enum JailResult {
    /// Player paid the fine and is now free
    PaidFine,
    /// Player used a get out of jail free card
    UsedCard,
    /// Player rolled doubles and is now free
    RolledDoubles { roll: DiceRoll },
    /// Player failed to roll doubles, turn ends
    StillInJail { turns_served: u8 },
    /// Player was forced out after max turns: fine auto-deducted
    ForcedOut,
    /// Player couldn't afford the fine
    Bankrupt,
}

/// The current player released from jail, with `money` left.
pub open spec fn released(s: GameView, money: u32) -> GameView {
    let p = s.current();
    s.with_player(s.current_player_index as int, PlayerView { money, in_jail: false, jail_turns: 0, ..p })
}

/// Player chooses to pay the jail fine.
pub fn pay_jail_fine(state: &mut GameState, jail_fine: u32) -> (r: JailResult)
    requires
        old(state)@.has_current(),
    ensures
        old(state)@.current().money < jail_fine ==> r == JailResult::Bankrupt && final(state)@ == old(state)@,
        old(state)@.current().money >= jail_fine ==> r == JailResult::PaidFine
            && final(state)@ == released(old(state)@, (old(state)@.current().money - jail_fine) as u32)
                .with_phase(TurnPhase::WaitingForRoll),
{
    let ghost s0 = state@;
    let ci = state.current_player_index;
    if state.players[ci].money < jail_fine {
        return JailResult::Bankrupt;
    }

    state.players[ci].money -= jail_fine;
    state.players[ci].in_jail = false;
    state.players[ci].jail_turns = 0;
    state.turn_phase = TurnPhase::WaitingForRoll;
    proof {
        assert(state@.players =~= released(s0, (s0.current().money - jail_fine) as u32).players);
    }

    JailResult::PaidFine
}

/// Player uses a get out of jail free card.
pub fn use_jail_card(state: &mut GameState) -> (r: JailResult)
    requires
        old(state)@.has_current(),
    ensures
        old(state)@.current().get_out_of_jail == 0 ==> r == (JailResult::StillInJail {
            turns_served: old(state)@.current().jail_turns,
        }) && final(state)@ == old(state)@,
        old(state)@.current().get_out_of_jail > 0 ==> r == JailResult::UsedCard && final(state)@ == old(state)@
            .with_player(old(state).current_player_index as int, PlayerView {
                get_out_of_jail: (old(state)@.current().get_out_of_jail - 1) as u8,
                in_jail: false,
                jail_turns: 0,
                ..old(state)@.current()
            })
            .with_phase(TurnPhase::WaitingForRoll),
{
    let ghost s0 = state@;
    let ci = state.current_player_index;
    if state.players[ci].get_out_of_jail == 0 {
        return JailResult::StillInJail { turns_served: state.players[ci].jail_turns };
    }

    state.players[ci].get_out_of_jail -= 1;
    state.players[ci].in_jail = false;
    state.players[ci].jail_turns = 0;
    state.turn_phase = TurnPhase::WaitingForRoll;
    proof {
        assert(state@.players =~= s0.players.update(ci as int, PlayerView {
            get_out_of_jail: (s0.current().get_out_of_jail - 1) as u8,
            in_jail: false,
            jail_turns: 0,
            ..s0.current()
        }));
    }

    JailResult::UsedCard
}

/// The current player with one more turn served in jail.
pub open spec fn served_turn(s: GameView) -> GameView {
    let p = s.current();
    s.with_player(s.current_player_index as int, PlayerView { jail_turns: (p.jail_turns + 1) as u8, ..p })
}

/// What a jail roll of `roll` answers.
pub open spec fn jail_roll_outcome(s: GameView, roll: DiceRoll, doubles_free: bool, jail_fine: u32, max_jail_turns: u8) -> JailResult {
    let p = s.current();
    if doubles_free && roll.die1 == roll.die2 {
        JailResult::RolledDoubles { roll }
    } else if p.jail_turns + 1 >= max_jail_turns {
        if p.money >= jail_fine { JailResult::ForcedOut } else { JailResult::Bankrupt }
    } else {
        JailResult::StillInJail { turns_served: (p.jail_turns + 1) as u8 }
    }
}

/// The state after a jail roll of `roll`: doubles free the player, when the
/// rules let them (`doubles_free`), who then moves by the roll; otherwise one
/// more turn is served, and on the last allowed turn the fine is paid (if it
/// can be) and the player moves.
pub open spec fn after_jail_roll(s: GameView, roll: DiceRoll, doubles_free: bool, jail_fine: u32, max_jail_turns: u8, go_salary: u32) -> GameView {
    let p = s.current();
    if doubles_free && roll.die1 == roll.die2 {
        after_advance(released(s, p.money), roll, go_salary)
    } else if p.jail_turns + 1 >= max_jail_turns {
        if p.money >= jail_fine {
            after_advance(released(s, (p.money - jail_fine) as u32), roll, go_salary)
        } else {
            served_turn(s)
        }
    } else {
        served_turn(s).with_phase(TurnPhase::EndTurn)
    }
}

/// A jail roll of `roll` stays within the integer ranges.
pub open spec fn jail_roll_in_range(s: GameView, roll: DiceRoll, doubles_free: bool, jail_fine: u32, max_jail_turns: u8, go_salary: u32) -> bool {
    let p = s.current();
    let freed = doubles_free && roll.die1 == roll.die2;
    &&& s.has_current()
    &&& freed ==> advance_in_range(released(s, p.money), roll, go_salary)
    &&& !freed ==> p.jail_turns + 1 <= u8::MAX
    &&& (!freed && p.jail_turns + 1 >= max_jail_turns && p.money >= jail_fine)
            ==> advance_in_range(released(s, (p.money - jail_fine) as u32), roll, go_salary)
}

/// Resolve a jail turn on the dice `roll` that was thrown for it; doubles
/// count only when the rules let doubles free a jailed player.
pub fn resolve_jail_roll(state: &mut GameState, roll: DiceRoll, doubles_free: bool, jail_fine: u32, max_jail_turns: u8, go_salary: u32) -> (r: JailResult)
    requires
        jail_roll_in_range(old(state)@, roll, doubles_free, jail_fine, max_jail_turns, go_salary),
    ensures
        r == jail_roll_outcome(old(state)@, roll, doubles_free, jail_fine, max_jail_turns),
        final(state)@ == after_jail_roll(old(state)@, roll, doubles_free, jail_fine, max_jail_turns, go_salary),
{
    let ghost s0 = state@;
    let ci = state.current_player_index;
    if doubles_free && roll.is_doubles() {
        state.players[ci].in_jail = false;
        state.players[ci].jail_turns = 0;
        proof {
            assert(state@.players =~= released(s0, s0.current().money).players);
            assert(state@ =~= released(s0, s0.current().money));
        }
        let roll_clone = roll;
        advance_player(state, &roll_clone, go_salary);
        return JailResult::RolledDoubles { roll };
    }

    state.players[ci].jail_turns += 1;
    let jail_turns = state.players[ci].jail_turns;
    proof {
        assert(state@.players =~= served_turn(s0).players);
    }

    if jail_turns >= max_jail_turns {
        if state.players[ci].money >= jail_fine {
            state.players[ci].money -= jail_fine;
            state.players[ci].in_jail = false;
            state.players[ci].jail_turns = 0;
            proof {
                let e = released(s0, (s0.current().money - jail_fine) as u32);
                assert(state@.players =~= e.players);
                assert(state@ =~= e);
            }
            let roll_clone = roll;
            advance_player(state, &roll_clone, go_salary);
            return JailResult::ForcedOut;
        } else {
            return JailResult::Bankrupt;
        }
    }

    state.turn_phase = TurnPhase::EndTurn;
    JailResult::StillInJail { turns_served: jail_turns }
}

/// Player attempts to roll doubles to escape jail. The dice are thrown here;
/// whatever they show, the answer and the new state are those of
/// `resolve_jail_roll` on some fair throw.
pub fn roll_for_jail(state: &mut GameState, doubles_free: bool, jail_fine: u32, max_jail_turns: u8, go_salary: u32) -> (r: JailResult)
    requires
        forall|d: DiceRoll| d.is_valid() ==> #[trigger] jail_roll_in_range(old(state)@, d, doubles_free, jail_fine, max_jail_turns, go_salary),
    ensures
        exists|d: DiceRoll| #![trigger d.is_valid()] {
            &&& d.is_valid()
            &&& r == jail_roll_outcome(old(state)@, d, doubles_free, jail_fine, max_jail_turns)
            &&& final(state)@ == after_jail_roll(old(state)@, d, doubles_free, jail_fine, max_jail_turns, go_salary)
        },
{
    let roll = DiceRoll::roll();
    assert(jail_roll_in_range(state@, roll, doubles_free, jail_fine, max_jail_turns, go_salary));
    resolve_jail_roll(state, roll, doubles_free, jail_fine, max_jail_turns, go_salary)
}

} // verus!
