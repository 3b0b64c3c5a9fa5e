use vstd::prelude::*;
use crate::board::{Board, Tile, PropertyTile, RailroadTile, UtilityTile, TaxTile, ColorGroup};
use crate::text::{text_is, decimal_text};

verus! {

/// The kinds of tile whose configuration carries fields.
#[derive(Debug, Clone, Copy, PartialEq, Eq, Structural)]
pub enum TileKind {
    Tax,
    Railroad,
    Utility,
    Property,
}

/// The fields a tile configuration may be missing.
#[derive(Debug, Clone, Copy, PartialEq, Eq, Structural)]
pub enum TileField {
    Name,
    ColorGroup,
    Price,
    BuildingCost,
    Rent,
    Amount,
}

/// Why a board or deck configuration was refused.
#[derive(Debug)]
pub enum LoadError {
    /// Tile `index` names a type that does not exist
    UnknownTileType { index: usize, tile_type: String },
    /// Tile `index`, of kind `kind`, lacks `field`
    MissingField { index: usize, kind: TileKind, field: TileField },
    /// Tile `index` names a color group that does not exist
    UnknownColorGroup { index: usize, color: String },
    /// The board does not have exactly 40 tiles
    WrongTileCount { found: usize },
    /// A card names an effect that does not exist
    UnknownCardEffect { effect: String },
}

/// A tile as written in a board file.
#[derive(Debug)]
pub struct RawTile {
    pub tile_type: String,
    pub name: Option<String>,
    pub color_group: Option<String>,
    pub price: Option<u32>,
    pub building_cost: Option<u32>,
    pub rent: Option<[u32; 6]>,
    pub amount: Option<u32>,
}

/// Number of tiles on a board.
pub const BOARD_TILES: usize = 40;

/// The color group a board file names, if the name is known.
pub open spec fn color_named(s: Seq<char>) -> Option<ColorGroup> {
    if s == "Brown"@ {
        Some(ColorGroup::Brown)
    } else if s == "LightBlue"@ {
        Some(ColorGroup::LightBlue)
    } else if s == "Pink"@ {
        Some(ColorGroup::Pink)
    } else if s == "Orange"@ {
        Some(ColorGroup::Orange)
    } else if s == "Red"@ {
        Some(ColorGroup::Red)
    } else if s == "Yellow"@ {
        Some(ColorGroup::Yellow)
    } else if s == "Green"@ {
        Some(ColorGroup::Green)
    } else if s == "DarkBlue"@ {
        Some(ColorGroup::DarkBlue)
    } else {
        None
    }
}

pub fn parse_color(s: &String, index: usize) -> (r: Result<ColorGroup, LoadError>)
    ensures
        match color_named(s@) {
            Some(c) => r == Ok::<ColorGroup, LoadError>(c),
            None => r matches Err(LoadError::UnknownColorGroup { index: i, color }) && i == index && color@ == s@,
        },
{
    if text_is(s, "Brown") {
        Ok(ColorGroup::Brown)
    } else if text_is(s, "LightBlue") {
        Ok(ColorGroup::LightBlue)
    } else if text_is(s, "Pink") {
        Ok(ColorGroup::Pink)
    } else if text_is(s, "Orange") {
        Ok(ColorGroup::Orange)
    } else if text_is(s, "Red") {
        Ok(ColorGroup::Red)
    } else if text_is(s, "Yellow") {
        Ok(ColorGroup::Yellow)
    } else if text_is(s, "Green") {
        Ok(ColorGroup::Green)
    } else if text_is(s, "DarkBlue") {
        Ok(ColorGroup::DarkBlue)
    } else {
        Err(LoadError::UnknownColorGroup { index, color: s.clone() })
    }
}

/// A mathematical summary of a load error, for contracts.
#[verifier::ext_equal]
pub enum LoadIssue {
    UnknownTileType { index: usize, tile_type: Seq<char> },
    MissingField { index: usize, kind: TileKind, field: TileField },
    UnknownColorGroup { index: usize, color: Seq<char> },
    WrongTileCount { found: usize },
    UnknownCardEffect { effect: Seq<char> },
}

impl View for LoadError {
    type V = LoadIssue;

    open spec fn view(&self) -> LoadIssue {
        match self {
            LoadError::UnknownTileType { index, tile_type } => LoadIssue::UnknownTileType { index: *index, tile_type: tile_type@ },
            LoadError::MissingField { index, kind, field } => LoadIssue::MissingField { index: *index, kind: *kind, field: *field },
            LoadError::UnknownColorGroup { index, color } => LoadIssue::UnknownColorGroup { index: *index, color: color@ },
            LoadError::WrongTileCount { found } => LoadIssue::WrongTileCount { found: *found },
            LoadError::UnknownCardEffect { effect } => LoadIssue::UnknownCardEffect { effect: effect@ },
        }
    }
}

/// Tile `index`, of kind `kind`, lacks `field`.
pub open spec fn missing(index: usize, kind: TileKind, field: TileField) -> Result<Tile, LoadIssue> {
    Err(LoadIssue::MissingField { index, kind, field })
}

/// What reading `raw` as tile `index` gives: the tile, or why it is refused.
/// Fields are read in the order name, color group, price, building cost, rent
/// (tax: name, amount); a fresh buyable tile is unowned, unbuilt and unmortgaged.
pub open spec fn tile_read(raw: RawTile, index: usize) -> Result<Tile, LoadIssue> {
    let ty = raw.tile_type@;
    if ty == "Go"@ {
        Ok(Tile::Go)
    } else if ty == "Jail"@ {
        Ok(Tile::Jail)
    } else if ty == "FreeParking"@ {
        Ok(Tile::FreeParking)
    } else if ty == "GoToJail"@ {
        Ok(Tile::GoToJail)
    } else if ty == "CommunityChest"@ {
        Ok(Tile::CommunityChest)
    } else if ty == "Chance"@ {
        Ok(Tile::Chance)
    } else if ty == "Tax"@ {
        if raw.name is None {
            missing(index, TileKind::Tax, TileField::Name)
        } else if raw.amount is None {
            missing(index, TileKind::Tax, TileField::Amount)
        } else {
            Ok(Tile::Tax(TaxTile { name: raw.name.unwrap(), amount: raw.amount.unwrap() }))
        }
    } else if ty == "Railroad"@ {
        if raw.name is None {
            missing(index, TileKind::Railroad, TileField::Name)
        } else if raw.price is None {
            missing(index, TileKind::Railroad, TileField::Price)
        } else {
            Ok(Tile::Railroad(RailroadTile { name: raw.name.unwrap(), price: raw.price.unwrap(), owner: None, mortgaged: false }))
        }
    } else if ty == "Utility"@ {
        if raw.name is None {
            missing(index, TileKind::Utility, TileField::Name)
        } else if raw.price is None {
            missing(index, TileKind::Utility, TileField::Price)
        } else {
            Ok(Tile::Utility(UtilityTile { name: raw.name.unwrap(), price: raw.price.unwrap(), owner: None, mortgaged: false }))
        }
    } else if ty == "Property"@ {
        if raw.name is None {
            missing(index, TileKind::Property, TileField::Name)
        } else if raw.color_group is None {
            missing(index, TileKind::Property, TileField::ColorGroup)
        } else if color_named(raw.color_group.unwrap()@) is None {
            Err(LoadIssue::UnknownColorGroup { index, color: raw.color_group.unwrap()@ })
        } else if raw.price is None {
            missing(index, TileKind::Property, TileField::Price)
        } else if raw.building_cost is None {
            missing(index, TileKind::Property, TileField::BuildingCost)
        } else if raw.rent is None {
            missing(index, TileKind::Property, TileField::Rent)
        } else {
            Ok(Tile::Property(PropertyTile {
                name: raw.name.unwrap(),
                color_group: color_named(raw.color_group.unwrap()@).unwrap(),
                price: raw.price.unwrap(),
                building_cost: raw.building_cost.unwrap(),
                rent: raw.rent.unwrap(),
                owner: None,
                houses: 0,
                mortgaged: false,
            }))
        }
    } else {
        Err(LoadIssue::UnknownTileType { index, tile_type: ty })
    }
}

/// Read one tile of a board file.
pub fn parse_tile(raw: RawTile, index: usize) -> (r: Result<Tile, LoadError>)
    ensures
        match tile_read(raw, index) {
            Ok(t) => r matches Ok(u) && u == t,
            Err(issue) => r matches Err(e) && e@ == issue,
        },
{
    if text_is(&raw.tile_type, "Go") {
        Ok(Tile::Go)
    } else if text_is(&raw.tile_type, "Jail") {
        Ok(Tile::Jail)
    } else if text_is(&raw.tile_type, "FreeParking") {
        Ok(Tile::FreeParking)
    } else if text_is(&raw.tile_type, "GoToJail") {
        Ok(Tile::GoToJail)
    } else if text_is(&raw.tile_type, "CommunityChest") {
        Ok(Tile::CommunityChest)
    } else if text_is(&raw.tile_type, "Chance") {
        Ok(Tile::Chance)
    } else if text_is(&raw.tile_type, "Tax") {
        let name = match raw.name {
            Some(n) => n,
            None => return Err(LoadError::MissingField { index, kind: TileKind::Tax, field: TileField::Name }),
        };
        let amount = match raw.amount {
            Some(a) => a,
            None => return Err(LoadError::MissingField { index, kind: TileKind::Tax, field: TileField::Amount }),
        };
        Ok(Tile::Tax(TaxTile { name, amount }))
    } else if text_is(&raw.tile_type, "Railroad") {
        let name = match raw.name {
            Some(n) => n,
            None => return Err(LoadError::MissingField { index, kind: TileKind::Railroad, field: TileField::Name }),
        };
        let price = match raw.price {
            Some(p) => p,
            None => return Err(LoadError::MissingField { index, kind: TileKind::Railroad, field: TileField::Price }),
        };
        Ok(Tile::Railroad(RailroadTile { name, price, owner: None, mortgaged: false }))
    } else if text_is(&raw.tile_type, "Utility") {
        let name = match raw.name {
            Some(n) => n,
            None => return Err(LoadError::MissingField { index, kind: TileKind::Utility, field: TileField::Name }),
        };
        let price = match raw.price {
            Some(p) => p,
            None => return Err(LoadError::MissingField { index, kind: TileKind::Utility, field: TileField::Price }),
        };
        Ok(Tile::Utility(UtilityTile { name, price, owner: None, mortgaged: false }))
    } else if text_is(&raw.tile_type, "Property") {
        let name = match raw.name {
            Some(n) => n,
            None => return Err(LoadError::MissingField { index, kind: TileKind::Property, field: TileField::Name }),
        };
        let color_name = match raw.color_group {
            Some(c) => c,
            None => return Err(LoadError::MissingField { index, kind: TileKind::Property, field: TileField::ColorGroup }),
        };
        let color_group = parse_color(&color_name, index)?;
        let price = match raw.price {
            Some(p) => p,
            None => return Err(LoadError::MissingField { index, kind: TileKind::Property, field: TileField::Price }),
        };
        let building_cost = match raw.building_cost {
            Some(b) => b,
            None => return Err(LoadError::MissingField { index, kind: TileKind::Property, field: TileField::BuildingCost }),
        };
        let rent = match raw.rent {
            Some(r) => r,
            None => return Err(LoadError::MissingField { index, kind: TileKind::Property, field: TileField::Rent }),
        };
        Ok(Tile::Property(PropertyTile {
            name,
            color_group,
            price,
            building_cost,
            rent,
            owner: None,
            houses: 0,
            mortgaged: false,
        }))
    } else {
        Err(LoadError::UnknownTileType { index, tile_type: raw.tile_type })
    }
}

/// Every tile before position `k` reads without issue.
pub open spec fn reads_up_to(raws: Seq<RawTile>, k: int) -> bool {
    forall|j: int| 0 <= j < k ==> #[trigger] tile_read(raws[j], j as usize) is Ok
}

/// Build a board from the tiles of a board file: every tile must read, and
/// there must be exactly 40 of them.
pub fn build_board(raws: Vec<RawTile>) -> (r: Result<Board, LoadError>)
    ensures
        match r {
            Ok(b) => {
                &&& reads_up_to(raws@, raws@.len() as int)
                &&& raws@.len() == BOARD_TILES
                &&& b.tiles@.len() == raws@.len()
                &&& forall|j: int| 0 <= j < raws@.len() ==> tile_read(raws@[j], j as usize) == Ok::<Tile, LoadIssue>(#[trigger] b.tiles@[j])
            },
            Err(e) => {
                ||| exists|k: int| 0 <= k < raws@.len() && reads_up_to(raws@, k)
                        && #[trigger] tile_read(raws@[k], k as usize) == Err::<Tile, LoadIssue>(e@)
                ||| reads_up_to(raws@, raws@.len() as int) && raws@.len() != BOARD_TILES
                        && e@ == (LoadIssue::WrongTileCount { found: raws@.len() as usize })
            },
        },
{
    let ghost all = raws@;
    let n = raws.len();
    let mut rest = raws;
    let mut tiles: Vec<Tile> = Vec::new();
    let mut i: usize = 0;
    while i < n
        invariant
            all == raws@,
            n == all.len(),
            i <= n,
            rest@ == all.skip(i as int),
            tiles@.len() == i,
            reads_up_to(all, i as int),
            forall|j: int| 0 <= j < i ==> tile_read(all[j], j as usize) == Ok::<Tile, LoadIssue>(#[trigger] tiles@[j]),
        decreases n - i,
    {
        let raw = rest.remove(0);
        proof {
            assert(raw == all[i as int]);
            assert(rest@ =~= all.skip(i + 1));
        }
        match parse_tile(raw, i) {
            Ok(t) => {
                tiles.push(t);
            },
            Err(e) => {
                proof {
                    assert(tile_read(all[i as int], i) == Err::<Tile, LoadIssue>(e@));
                    assert(tile_read(raws@[i as int], (i as int) as usize) == Err::<Tile, LoadIssue>(e@));
                    assert(reads_up_to(raws@, i as int));
                }
                return Err(e);
            },
        }
        i += 1;
    }

    if tiles.len() != BOARD_TILES {
        return Err(LoadError::WrongTileCount { found: tiles.len() });
    }

    Ok(Board { tiles })
}


// ---------------------------------------------------------------- messages

/// How a message names a tile kind.
pub open spec fn kind_name(k: TileKind) -> Seq<char> {
    match k {
        TileKind::Tax => "Tax"@,
        TileKind::Railroad => "Railroad"@,
        TileKind::Utility => "Utility"@,
        TileKind::Property => "Property"@,
    }
}

/// How a message names a tile field: as the configuration file writes it.
pub open spec fn field_name(f: TileField) -> Seq<char> {
    match f {
        TileField::Name => "name"@,
        TileField::ColorGroup => "color_group"@,
        TileField::Price => "price"@,
        TileField::BuildingCost => "building_cost"@,
        TileField::Rent => "rent"@,
        TileField::Amount => "amount"@,
    }
}

/// The message that tells what is wrong with a configuration.
pub open spec fn issue_message(e: LoadIssue) -> Seq<char> {
    match e {
        LoadIssue::UnknownTileType { index, tile_type } =>
            "Tile "@ + decimal_text(index as nat) + ": Unknown tile type '"@ + tile_type + "'"@,
        LoadIssue::MissingField { index, kind, field } =>
            "Tile "@ + decimal_text(index as nat) + ": "@ + kind_name(kind) + " missing "@ + field_name(field),
        LoadIssue::UnknownColorGroup { index, color } =>
            "Tile "@ + decimal_text(index as nat) + ": Unknown color group '"@ + color + "'"@,
        LoadIssue::WrongTileCount { found } =>
            "Board must have exactly 40 tiles, found "@ + decimal_text(found as nat),
        LoadIssue::UnknownCardEffect { effect } => "Unknown card effect: "@ + effect,
    }
}

/// `format!("Tile {}: Unknown tile type '{}'", index, tile_type)`.
///
/// Trusted: `{}` writes the index in decimal digits and the text unchanged.
#[verifier::external_body]
fn unknown_tile_type_message(index: usize, tile_type: &String) -> (s: String)
    ensures
        s@ == "Tile "@ + decimal_text(index as nat) + ": Unknown tile type '"@ + tile_type@ + "'"@,
{
    format!("Tile {}: Unknown tile type '{}'", index, tile_type)
}

/// `format!("Tile {}: {} missing {}", index, kind, field)`.
///
/// Trusted: `{}` writes the index in decimal digits and the texts unchanged.
#[verifier::external_body]
fn missing_field_message(index: usize, kind: &str, field: &str) -> (s: String)
    ensures
        s@ == "Tile "@ + decimal_text(index as nat) + ": "@ + kind@ + " missing "@ + field@,
{
    format!("Tile {}: {} missing {}", index, kind, field)
}

/// `format!("Tile {}: Unknown color group '{}'", index, color)`.
///
/// Trusted: `{}` writes the index in decimal digits and the text unchanged.
#[verifier::external_body]
fn unknown_color_message(index: usize, color: &String) -> (s: String)
    ensures
        s@ == "Tile "@ + decimal_text(index as nat) + ": Unknown color group '"@ + color@ + "'"@,
{
    format!("Tile {}: Unknown color group '{}'", index, color)
}

/// `format!("Board must have exactly 40 tiles, found {}", found)`.
///
/// Trusted: `{}` writes the count in decimal digits.
#[verifier::external_body]
fn wrong_count_message(found: usize) -> (s: String)
    ensures
        s@ == "Board must have exactly 40 tiles, found "@ + decimal_text(found as nat),
{
    format!("Board must have exactly 40 tiles, found {}", found)
}

/// `format!("Unknown card effect: {}", effect)`.
///
/// Trusted: `{}` writes the text unchanged.
#[verifier::external_body]
fn unknown_effect_message(effect: &String) -> (s: String)
    ensures
        s@ == "Unknown card effect: "@ + effect@,
{
    format!("Unknown card effect: {}", effect)
}

fn kind_label(k: TileKind) -> (s: &'static str)
    ensures
        s@ == kind_name(k),
{
    match k {
        TileKind::Tax => "Tax",
        TileKind::Railroad => "Railroad",
        TileKind::Utility => "Utility",
        TileKind::Property => "Property",
    }
}

fn field_label(f: TileField) -> (s: &'static str)
    ensures
        s@ == field_name(f),
{
    match f {
        TileField::Name => "name",
        TileField::ColorGroup => "color_group",
        TileField::Price => "price",
        TileField::BuildingCost => "building_cost",
        TileField::Rent => "rent",
        TileField::Amount => "amount",
    }
}

impl LoadError {
    /// The message that tells what is wrong with the configuration.
    pub fn message(&self) -> (s: String)
        ensures
            s@ == issue_message(self@),
    {
        match self {
            LoadError::UnknownTileType { index, tile_type } => unknown_tile_type_message(*index, tile_type),
            LoadError::MissingField { index, kind, field } => missing_field_message(*index, kind_label(*kind), field_label(*field)),
            LoadError::UnknownColorGroup { index, color } => unknown_color_message(*index, color),
            LoadError::WrongTileCount { found } => wrong_count_message(*found),
            LoadError::UnknownCardEffect { effect } => unknown_effect_message(effect),
        }
    }
}

} // verus!
