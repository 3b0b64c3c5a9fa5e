use vstd::prelude::*;

verus! {

/// Every tile on the board is one of these variants.
#[derive(Debug, Clone)]
pub enum Tile {
    /// A buyable property (dark purple, light blue, etc.)
    Property(PropertyTile),
    /// One of the four railroads
    Railroad(RailroadTile),
    /// One of the two utilities
    Utility(UtilityTile),
    /// Draw a Community Chest card
    CommunityChest,
    /// Draw a Chance card
    Chance,
    /// Pay a flat tax
    Tax(TaxTile),
    /// Start tile: collect salary when passing
    Go,
    /// Just visiting / in jail
    Jail,
    /// Go to jail immediately
    GoToJail,
    /// Free parking: no effect in standard rules
    FreeParking,
}

#[derive(Debug, Clone)]
pub struct PropertyTile {
    pub name: String,
    pub color_group: ColorGroup,
    pub price: u32,
    pub building_cost: u32,
    /// Rent at 0, 1, 2, 3, 4 houses, then hotel
    pub rent: [u32; 6],
    /// Index (id) of the owning player
    pub owner: Option<u8>,
    /// 0 to 4 houses, 5 = hotel
    pub houses: u8,
    pub mortgaged: bool,
}

#[derive(Debug, Clone)]
pub struct RailroadTile {
    pub name: String,
    pub price: u32,
    pub owner: Option<u8>,
    pub mortgaged: bool,
}

#[derive(Debug, Clone)]
pub struct UtilityTile {
    pub name: String,
    pub price: u32,
    pub owner: Option<u8>,
    pub mortgaged: bool,
}

#[derive(Debug, Clone)]
pub struct TaxTile {
    pub name: String,
    pub amount: u32,
}

/// The eight color groups on a standard Monopoly board.
#[derive(Debug, Clone, Copy, PartialEq, Eq, Structural)]
pub enum ColorGroup {
    Brown,
    LightBlue,
    Pink,
    Orange,
    Red,
    Yellow,
    Green,
    DarkBlue,
}

/// The board itself: tiles in order starting from Go.
#[derive(Debug, Clone)]
pub struct Board {
    pub tiles: Vec<Tile>,
}

impl Tile {
    /// The owner of a buyable tile; `None` for unowned or unbuyable tiles.
    pub open spec fn owner(self) -> Option<u8> {
        match self {
            Tile::Property(p) => p.owner,
            Tile::Railroad(r) => r.owner,
            Tile::Utility(u) => u.owner,
            _ => None,
        }
    }

    /// Whether the tile can be owned at all.
    pub open spec fn is_buyable(self) -> bool {
        self is Property || self is Railroad || self is Utility
    }

    /// Whether a buyable tile is mortgaged.
    pub open spec fn is_mortgaged(self) -> bool {
        match self {
            Tile::Property(p) => p.mortgaged,
            Tile::Railroad(r) => r.mortgaged,
            Tile::Utility(u) => u.mortgaged,
            _ => false,
        }
    }

    /// Purchase price of a buyable tile, 0 for any other tile.
    pub open spec fn price(self) -> u32 {
        match self {
            Tile::Property(p) => p.price,
            Tile::Railroad(r) => r.price,
            Tile::Utility(u) => u.price,
            _ => 0,
        }
    }

    /// The same tile with another owner (unbuyable tiles are unchanged).
    pub open spec fn with_owner(self, owner: Option<u8>) -> Tile {
        match self {
            Tile::Property(p) => Tile::Property(PropertyTile { owner, ..p }),
            Tile::Railroad(r) => Tile::Railroad(RailroadTile { owner, ..r }),
            Tile::Utility(u) => Tile::Utility(UtilityTile { owner, ..u }),
            _ => self,
        }
    }

    /// The same tile with the mortgage flag set to `m` (unbuyable tiles are unchanged).
    pub open spec fn with_mortgaged(self, m: bool) -> Tile {
        match self {
            Tile::Property(p) => Tile::Property(PropertyTile { mortgaged: m, ..p }),
            Tile::Railroad(r) => Tile::Railroad(RailroadTile { mortgaged: m, ..r }),
            Tile::Utility(u) => Tile::Utility(UtilityTile { mortgaged: m, ..u }),
            _ => self,
        }
    }
}

impl Tile {
    /// A copy of this tile.
    pub fn duplicate(&self) -> (t: Tile)
        ensures
            t == *self,
    {
        match self {
            Tile::Property(p) => Tile::Property(PropertyTile {
                name: p.name.clone(),
                color_group: p.color_group,
                price: p.price,
                building_cost: p.building_cost,
                rent: p.rent,
                owner: p.owner,
                houses: p.houses,
                mortgaged: p.mortgaged,
            }),
            Tile::Railroad(r) => Tile::Railroad(RailroadTile {
                name: r.name.clone(),
                price: r.price,
                owner: r.owner,
                mortgaged: r.mortgaged,
            }),
            Tile::Utility(u) => Tile::Utility(UtilityTile {
                name: u.name.clone(),
                price: u.price,
                owner: u.owner,
                mortgaged: u.mortgaged,
            }),
            Tile::CommunityChest => Tile::CommunityChest,
            Tile::Chance => Tile::Chance,
            Tile::Tax(t) => Tile::Tax(TaxTile { name: t.name.clone(), amount: t.amount }),
            Tile::Go => Tile::Go,
            Tile::Jail => Tile::Jail,
            Tile::GoToJail => Tile::GoToJail,
            Tile::FreeParking => Tile::FreeParking,
        }
    }
}

impl Board {
    /// A copy of this board.
    pub fn duplicate(&self) -> (b: Board)
        ensures
            b.tiles@ == self.tiles@,
    {
        let mut tiles: Vec<Tile> = Vec::new();
        let mut i: usize = 0;
        while i < self.tiles.len()
            invariant
                i <= self.tiles@.len(),
                tiles@ == self.tiles@.take(i as int),
            decreases self.tiles@.len() - i,
        {
            tiles.push(self.tiles[i].duplicate());
            proof { assert(tiles@ =~= self.tiles@.take(i + 1)); }
            i += 1;
        }
        proof { assert(self.tiles@.take(self.tiles@.len() as int) =~= self.tiles@); }
        Board { tiles }
    }

    pub fn tile_count(&self) -> (n: usize)
        ensures
            n == self.tiles@.len(),
    {
        self.tiles.len()
    }

    /// Wraps position around the board.
    pub fn normalize_position(&self, pos: usize) -> (p: usize)
        requires
            self.tiles@.len() > 0,
        ensures
            p == pos % (self.tiles@.len() as usize),
            p < self.tiles@.len(),
    {
        pos % self.tiles.len()
    }
}

} // verus!
