use vstd::prelude::*;
use crate::board::{Board, Tile};
use crate::player::{Player, PlayerView};

verus! {

#[derive(Debug, Clone, Copy, PartialEq, Eq, Structural)]
pub enum TurnPhase {
    WaitingForRoll,
    BuyDecision { tile_index: usize },
    Auction { tile_index: usize, highest_bid: u32, highest_bidder: u8 },
    PayingRent { amount: u32, to_player: u8 },
    JailDecision,
    PostRoll,
    EndTurn,
}

#[derive(Debug, Clone)]
pub struct GameState {
    pub board: Board,
    pub players: Vec<Player>,
    pub current_player_index: usize,
    pub turn_phase: TurnPhase,
    pub turn_number: u32,
    pub last_roll: Option<(u8, u8)>,
    pub free_parking_pot: u32,
    pub game_over: bool,
    pub winner: Option<u8>,
    /// Building supply lives here so it is under one mutable borrow
    pub houses_remaining: u8,
    pub hotels_remaining: u8,
    pub auction_passers: Vec<u8>,
}

/// A game state as a mathematical value.
#[verifier::ext_equal]
pub struct GameView {
    pub tiles: Seq<Tile>,
    pub players: Seq<PlayerView>,
    pub current_player_index: usize,
    pub turn_phase: TurnPhase,
    pub turn_number: u32,
    pub last_roll: Option<(u8, u8)>,
    pub free_parking_pot: u32,
    pub game_over: bool,
    pub winner: Option<u8>,
    pub houses_remaining: u8,
    pub hotels_remaining: u8,
    pub auction_passers: Seq<u8>,
}

impl View for GameState {
    type V = GameView;

    open spec fn view(&self) -> GameView {
        GameView {
            tiles: self.board.tiles@,
            players: self.players@.map_values(|p: Player| p@),
            current_player_index: self.current_player_index,
            turn_phase: self.turn_phase,
            turn_number: self.turn_number,
            last_roll: self.last_roll,
            free_parking_pot: self.free_parking_pot,
            game_over: self.game_over,
            winner: self.winner,
            houses_remaining: self.houses_remaining,
            hotels_remaining: self.hotels_remaining,
            auction_passers: self.auction_passers@,
        }
    }
}

impl GameView {
    /// The current player index points at a player.
    pub open spec fn has_current(self) -> bool {
        self.current_player_index < self.players.len()
    }

    pub open spec fn current(self) -> PlayerView {
        self.players[self.current_player_index as int]
    }

    pub open spec fn with_player(self, i: int, p: PlayerView) -> GameView {
        GameView { players: self.players.update(i, p), ..self }
    }

    pub open spec fn with_tile(self, i: int, t: Tile) -> GameView {
        GameView { tiles: self.tiles.update(i, t), ..self }
    }

    pub open spec fn with_phase(self, phase: TurnPhase) -> GameView {
        GameView { turn_phase: phase, ..self }
    }

    /// Players that have not gone bankrupt, in seat order.
    pub open spec fn active(self) -> Seq<PlayerView> {
        self.players.filter(|p: PlayerView| !p.bankrupt)
    }
}

/// Index of the first player in `ps` whose id is `id`.
pub open spec fn find_id(ps: Seq<PlayerView>, id: u8) -> Option<int>
    decreases ps.len(),
{
    if ps.len() == 0 {
        None
    } else if ps[0].id == id {
        Some(0)
    } else {
        match find_id(ps.drop_first(), id) {
            Some(i) => Some(i + 1),
            None => None,
        }
    }
}

/// `find_id` picks the first index that carries `id`.
pub proof fn lemma_find_id_first(ps: Seq<PlayerView>, id: u8, i: int)
    requires
        0 <= i < ps.len(),
        ps[i].id == id,
        forall|j: int| 0 <= j < i ==> ps[j].id != id,
    ensures
        find_id(ps, id) == Some(i),
    decreases i,
{
    if i > 0 {
        assert(ps.drop_first()[i - 1] == ps[i]);
        lemma_find_id_first(ps.drop_first(), id, i - 1);
    }
}

/// `find_id` finds nothing when no player carries `id`.
pub proof fn lemma_find_id_none(ps: Seq<PlayerView>, id: u8)
    requires
        forall|j: int| 0 <= j < ps.len() ==> ps[j].id != id,
    ensures
        find_id(ps, id) is None,
    decreases ps.len(),
{
    if ps.len() > 0 {
        lemma_find_id_none(ps.drop_first(), id);
    }
}

/// What `find_id` returns is an index into `ps` that carries `id`.
pub proof fn lemma_find_id_found(ps: Seq<PlayerView>, id: u8)
    ensures
        find_id(ps, id) matches Some(i) ==> 0 <= i < ps.len() && ps[i].id == id
            && forall|j: int| 0 <= j < i ==> ps[j].id != id,
        find_id(ps, id) is None ==> forall|j: int| 0 <= j < ps.len() ==> ps[j].id != id,
    decreases ps.len(),
{
    if ps.len() > 0 {
        lemma_find_id_found(ps.drop_first(), id);
        if ps[0].id != id {
            assert forall|j: int| 1 <= j < ps.len() implies ps[j] == ps.drop_first()[j - 1] by {}
        }
    }
}

/// Position of the first player with id `id`.
pub(crate) fn find_player_index(players: &Vec<Player>, id: u8) -> (r: Option<usize>)
    ensures
        match r {
            Some(i) => find_id(players@.map_values(|p: Player| p@), id) == Some(i as int),
            None => find_id(players@.map_values(|p: Player| p@), id) is None,
        },
{
    let ghost ps = players@.map_values(|p: Player| p@);
    let mut i: usize = 0;
    while i < players.len()
        invariant
            ps == players@.map_values(|p: Player| p@),
            i <= players@.len(),
            forall|j: int| 0 <= j < i ==> ps[j].id != id,
        decreases players@.len() - i,
    {
        if players[i].id == id {
            proof { lemma_find_id_first(ps, id, i as int); }
            return Some(i);
        }
        i += 1;
    }
    proof { lemma_find_id_none(ps, id); }
    None
}

impl GameState {
    /// A copy of this state.
    pub fn snapshot(&self) -> (r: GameState)
        ensures
            r@ == self@,
    {
        let mut players: Vec<Player> = Vec::new();
        let mut i: usize = 0;
        while i < self.players.len()
            invariant
                i <= self.players@.len(),
                players@.len() == i,
                forall|j: int| 0 <= j < i ==> (#[trigger] players@[j])@ == self.players@[j]@,
            decreases self.players@.len() - i,
        {
            players.push(self.players[i].duplicate());
            i += 1;
        }
        let mut passers: Vec<u8> = Vec::new();
        let mut k: usize = 0;
        while k < self.auction_passers.len()
            invariant
                k <= self.auction_passers@.len(),
                passers@ == self.auction_passers@.take(k as int),
            decreases self.auction_passers@.len() - k,
        {
            passers.push(self.auction_passers[k]);
            proof { assert(passers@ =~= self.auction_passers@.take(k + 1)); }
            k += 1;
        }
        proof { assert(self.auction_passers@.take(self.auction_passers@.len() as int) =~= self.auction_passers@); }
        let r = GameState {
            board: self.board.duplicate(),
            players,
            current_player_index: self.current_player_index,
            turn_phase: self.turn_phase,
            turn_number: self.turn_number,
            last_roll: self.last_roll,
            free_parking_pot: self.free_parking_pot,
            game_over: self.game_over,
            winner: self.winner,
            houses_remaining: self.houses_remaining,
            hotels_remaining: self.hotels_remaining,
            auction_passers: passers,
        };
        proof { assert(r@.players =~= self@.players); }
        r
    }

    pub fn current_player(&self) -> (p: &Player)
        requires
            self@.has_current(),
        ensures
            p@ == self@.current(),
    {
        &self.players[self.current_player_index]
    }

    pub fn current_player_mut(&mut self) -> (p: &mut Player)
        requires
            old(self)@.has_current(),
        ensures
            *p == old(self).players@[old(self).current_player_index as int],
            final(self)@ == old(self)@.with_player(
                old(self).current_player_index as int,
                final(p)@,
            ),
    {
        &mut self.players[self.current_player_index]
    }

    pub fn active_players(&self) -> (r: Vec<&Player>)
        ensures
            r@.map_values(|p: &Player| p@) == self@.active(),
    {
        let mut r: Vec<&Player> = Vec::new();
        let ghost ps = self@.players;
        let mut i: usize = 0;
        while i < self.players.len()
            invariant
                i <= self.players@.len(),
                ps == self@.players,
                r@.map_values(|p: &Player| p@) == ps.take(i as int).filter(|p: PlayerView| !p.bankrupt),
            decreases self.players@.len() - i,
        {
            let p = &self.players[i];
            proof {
                assert(ps.take(i + 1).drop_last() =~= ps.take(i as int));
                reveal_with_fuel(Seq::filter, 1);
            }
            if !p.bankrupt {
                r.push(p);
            }
            proof {
                assert(r@.map_values(|p: &Player| p@) =~= ps.take(i + 1).filter(|p: PlayerView| !p.bankrupt));
            }
            i += 1;
        }
        proof {
            assert(ps.take(self.players@.len() as int) =~= ps);
        }
        r
    }

    pub fn advance_turn(&mut self)
        requires
            old(self).players@.len() > 0,
            old(self).current_player_index + 1 <= usize::MAX,
            old(self).turn_number + 1 <= u32::MAX,
        ensures
            final(self)@ == (GameView {
                current_player_index: ((old(self).current_player_index + 1) % (old(self).players@.len() as int)) as usize,
                turn_phase: TurnPhase::WaitingForRoll,
                turn_number: (old(self).turn_number + 1) as u32,
                last_roll: None,
                auction_passers: Seq::empty(),
                ..old(self)@
            }),
    {
        let total = self.players.len();
        self.current_player_index = (self.current_player_index + 1) % total;
        self.turn_phase = TurnPhase::WaitingForRoll;
        self.turn_number += 1;
        self.last_roll = None;
        self.auction_passers.clear();
    }
}

} // verus!
