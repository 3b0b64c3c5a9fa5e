use vstd::prelude::*;

verus! {

#[derive(Debug, Clone)]
pub struct Player {
    pub id: u8,
    pub name: String,
    pub token: Token,
    pub money: u32,
    pub position: usize,
    pub in_jail: bool,
    /// How many turns spent in jail
    pub jail_turns: u8,
    /// Number of get-out-of-jail-free cards held
    pub get_out_of_jail: u8,
    pub bankrupt: bool,
    /// Tile indices of owned properties
    pub properties: Vec<usize>,
}

/// The eight classic Monopoly tokens.
#[derive(Debug, Clone, Copy, PartialEq, Eq, Structural)]
pub enum Token {
    Battleship,
    Boot,
    Car,
    Dog,
    Hat,
    Iron,
    Thimble,
    Wheelbarrow,
}

/// A player as a mathematical value.
#[verifier::ext_equal]
pub struct PlayerView {
    pub id: u8,
    pub name: Seq<char>,
    pub token: Token,
    pub money: u32,
    pub position: usize,
    pub in_jail: bool,
    pub jail_turns: u8,
    pub get_out_of_jail: u8,
    pub bankrupt: bool,
    pub properties: Seq<usize>,
}

impl View for Player {
    type V = PlayerView;

    open spec fn view(&self) -> PlayerView {
        PlayerView {
            id: self.id,
            name: self.name@,
            token: self.token,
            money: self.money,
            position: self.position,
            in_jail: self.in_jail,
            jail_turns: self.jail_turns,
            get_out_of_jail: self.get_out_of_jail,
            bankrupt: self.bankrupt,
            properties: self.properties@,
        }
    }
}

impl PlayerView {
    pub open spec fn with_money(self, money: u32) -> PlayerView {
        PlayerView { money, ..self }
    }
}

impl Player {
    pub fn new(id: u8, name: String, token: Token, starting_money: u32) -> (p: Self)
        ensures
            p@ == (PlayerView {
                id,
                name: name@,
                token,
                money: starting_money,
                position: 0,
                in_jail: false,
                jail_turns: 0,
                get_out_of_jail: 0,
                bankrupt: false,
                properties: Seq::empty(),
            }),
    {
        Self {
            id,
            name,
            token,
            money: starting_money,
            position: 0,
            in_jail: false,
            jail_turns: 0,
            get_out_of_jail: 0,
            bankrupt: false,
            properties: Vec::new(),
        }
    }

    /// A copy of this player.
    pub fn duplicate(&self) -> (p: Player)
        ensures
            p@ == self@,
    {
        let mut properties: Vec<usize> = Vec::new();
        let mut i: usize = 0;
        while i < self.properties.len()
            invariant
                i <= self.properties@.len(),
                properties@ == self.properties@.take(i as int),
            decreases self.properties@.len() - i,
        {
            properties.push(self.properties[i]);
            proof { assert(properties@ =~= self.properties@.take(i + 1)); }
            i += 1;
        }
        proof { assert(self.properties@.take(self.properties@.len() as int) =~= self.properties@); }
        Player {
            id: self.id,
            name: self.name.clone(),
            token: self.token,
            money: self.money,
            position: self.position,
            in_jail: self.in_jail,
            jail_turns: self.jail_turns,
            get_out_of_jail: self.get_out_of_jail,
            bankrupt: self.bankrupt,
            properties,
        }
    }

    pub fn is_solvent(&self) -> (b: bool)
        ensures
            b == !self.bankrupt,
    {
        !self.bankrupt
    }
}

} // verus!
