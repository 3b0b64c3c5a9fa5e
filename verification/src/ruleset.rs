use vstd::prelude::*;

verus! {

/// All the numerical and behavioral knobs that define a game mode.
/// Standard Monopoly is one instance; custom modes override what they need.
#[derive(Debug, Clone)]
pub struct RuleSet {
    pub name: String,
    /// Collected at the start of the game
    pub starting_money: u32,
    /// Collected when passing or landing on Go
    pub go_salary: u32,
    /// Cost to get out of jail by paying
    pub jail_fine: u32,
    /// Forced out after this many turns in jail
    pub max_jail_turns: u8,
    /// Can roll doubles to exit jail for free
    pub doubles_to_exit_jail: bool,
    /// Total house supply
    pub max_houses: u8,
    /// Total hotel supply
    pub max_hotels: u8,
    /// Houses returned when building a hotel
    pub houses_per_hotel: u8,
    /// If false, an unowned property is simply not bought
    pub auction_enabled: bool,
    /// House rule: taxes go to the centre, collected on free parking
    pub free_parking_pot: bool,
    /// Going bankrupt to the bank eliminates the player
    pub debt_to_bank_eliminates: bool,
}

impl RuleSet {
    /// The values of the official standard ruleset.
    pub open spec fn is_standard(self) -> bool {
        &&& self.name@ == "Standard Monopoly"@
        &&& self.starting_money == 1500
        &&& self.go_salary == 200
        &&& self.jail_fine == 50
        &&& self.max_jail_turns == 3
        &&& self.doubles_to_exit_jail
        &&& self.max_houses == 32
        &&& self.max_hotels == 12
        &&& self.houses_per_hotel == 4
        &&& self.auction_enabled
        &&& !self.free_parking_pot
        &&& self.debt_to_bank_eliminates
    }

    /// The official standard ruleset.
    pub fn standard() -> (r: Self)
        ensures
            r.is_standard(),
    {
        Self {
            name: "Standard Monopoly".to_owned(),
            starting_money: 1500,
            go_salary: 200,
            jail_fine: 50,
            max_jail_turns: 3,
            doubles_to_exit_jail: true,
            max_houses: 32,
            max_hotels: 12,
            houses_per_hotel: 4,
            auction_enabled: true,
            free_parking_pot: false,
            debt_to_bank_eliminates: true,
        }
    }
}

} // verus!
