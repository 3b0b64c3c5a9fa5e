use vstd::prelude::*;
use crate::board::{Board, Tile};
use crate::player::{Player, PlayerView, Token};
use crate::ruleset::RuleSet;
use crate::state::{GameState, GameView, TurnPhase};
use crate::trading::TradeOffer;

verus! {

/// Most players a lobby admits.
pub const MAX_PLAYERS: u8 = 6;

/// A player waiting in (or playing from) the lobby.
#[derive(Debug, Clone)]
pub struct LobbyPlayer {
    pub id: u8,
    pub name: String,
    pub token: Token,
    pub ready: bool,
}

#[derive(Debug, Clone, Copy, PartialEq, Eq, Structural)]
pub enum LobbyState {
    WaitingForPlayers,
    InGame,
}

/// The server's lobby: who has joined (in joining order), the game once it
/// started, the rules, and a pending trade proposal.
pub struct Lobby {
    pub players: Vec<LobbyPlayer>,
    pub state: LobbyState,
    pub game: Option<GameState>,
    pub ruleset: RuleSet,
    pub next_id: u8,
    pub host_id: Option<u8>,
    pub pending_trade: Option<TradeOffer>,
}

/// A lobby as a mathematical value.
#[verifier::ext_equal]
pub struct LobbyView {
    pub players: Seq<LobbyPlayer>,
    pub state: LobbyState,
    pub game: Option<GameView>,
    pub ruleset: RuleSet,
    pub next_id: u8,
    pub host_id: Option<u8>,
    pub pending_trade: Option<TradeOffer>,
}

impl View for Lobby {
    type V = LobbyView;

    open spec fn view(&self) -> LobbyView {
        LobbyView {
            players: self.players@,
            state: self.state,
            game: match self.game {
                Some(g) => Some(g@),
                None => None,
            },
            ruleset: self.ruleset,
            next_id: self.next_id,
            host_id: self.host_id,
            pending_trade: self.pending_trade,
        }
    }
}

impl LobbyView {
    /// Ids are unique and all below the next id to hand out.
    pub open spec fn wf(self) -> bool {
        &&& forall|i: int| 0 <= i < self.players.len() ==> (#[trigger] self.players[i]).id < self.next_id
        &&& forall|i: int, j: int| 0 <= i < j < self.players.len()
                ==> (#[trigger] self.players[i]).id != (#[trigger] self.players[j]).id
    }

    pub open spec fn is_full(self) -> bool {
        self.players.len() >= MAX_PLAYERS
    }

    /// The lobby after `id` left: the host role passes to the earliest
    /// remaining player when the host leaves.
    pub open spec fn without_player(self, id: u8) -> LobbyView {
        let rest = self.players.filter(|p: LobbyPlayer| p.id != id);
        LobbyView {
            players: rest,
            host_id: if self.host_id == Some(id) {
                if rest.len() > 0 { Some(rest[0].id) } else { None }
            } else {
                self.host_id
            },
            ..self
        }
    }
}

/// The player a lobby member starts the game as.
pub open spec fn starting_player(lp: LobbyPlayer, money: u32) -> PlayerView {
    PlayerView {
        id: lp.id,
        name: lp.name@,
        token: lp.token,
        money,
        position: 0,
        in_jail: false,
        jail_turns: 0,
        get_out_of_jail: 0,
        bankrupt: false,
        properties: Seq::empty(),
    }
}

/// The game a lobby starts on `tiles`: everyone seated in joining order with
/// the starting money, the first seat to roll, the full building supply.
pub open spec fn opening_game(l: LobbyView, tiles: Seq<Tile>) -> GameView {
    GameView {
        tiles,
        players: l.players.map_values(|lp: LobbyPlayer| starting_player(lp, l.ruleset.starting_money)),
        current_player_index: 0,
        turn_phase: TurnPhase::WaitingForRoll,
        turn_number: 0,
        last_roll: None,
        free_parking_pot: 0,
        game_over: false,
        winner: None,
        houses_remaining: l.ruleset.max_houses,
        hotels_remaining: l.ruleset.max_hotels,
        auction_passers: Seq::empty(),
    }
}

impl Lobby {
    pub fn new() -> (l: Self)
        ensures
            l@.players.len() == 0,
            l@.state == LobbyState::WaitingForPlayers,
            l@.game is None,
            l@.ruleset.is_standard(),
            l@.next_id == 0,
            l@.host_id is None,
            l@.pending_trade is None,
            l@.wf(),
    {
        Self {
            players: Vec::new(),
            state: LobbyState::WaitingForPlayers,
            game: None,
            ruleset: RuleSet::standard(),
            next_id: 0,
            host_id: None,
            pending_trade: None,
        }
    }

    pub fn is_full(&self) -> (b: bool)
        ensures
            b == self@.is_full(),
    {
        self.players.len() >= MAX_PLAYERS as usize
    }

    /// Admit a player, unless the lobby is full or the game has started.
    /// The first player to join hosts.
    pub fn add_player(&mut self, name: String, token: Token) -> (r: Option<u8>)
        requires
            !(old(self)@.is_full() || old(self).state == LobbyState::InGame) ==> old(self).next_id < u8::MAX,
        ensures
            (old(self)@.is_full() || old(self).state == LobbyState::InGame) ==> r is None && final(self)@ == old(self)@,
            !(old(self)@.is_full() || old(self).state == LobbyState::InGame) ==> {
                &&& r == Some(old(self).next_id)
                &&& final(self)@ == (LobbyView {
                    players: old(self)@.players.push(LobbyPlayer { id: old(self).next_id, name, token, ready: false }),
                    next_id: (old(self).next_id + 1) as u8,
                    host_id: if old(self).host_id is None { Some(old(self).next_id) } else { old(self).host_id },
                    ..old(self)@
                })
            },
            old(self)@.wf() ==> final(self)@.wf(),
    {
        if self.is_full() || self.state == LobbyState::InGame {
            return None;
        }
        let id = self.next_id;
        self.next_id += 1;

        if self.host_id.is_none() {
            self.host_id = Some(id);
        }

        self.players.push(LobbyPlayer { id, name, token, ready: false });

        Some(id)
    }

    /// Remove the player with id `id`; if they hosted, the earliest remaining
    /// player becomes host.
    pub fn remove_player(&mut self, id: u8)
        ensures
            final(self)@ == old(self)@.without_player(id),
            old(self)@.wf() ==> final(self)@.wf(),
    {
        let ghost ps = self.players@;
        let mut kept: Vec<LobbyPlayer> = Vec::new();
        let n = self.players.len();
        let mut i: usize = 0;
        let mut rest: Vec<LobbyPlayer> = Vec::new();
        std::mem::swap(&mut rest, &mut self.players);
        proof { assert(rest@.skip(0) =~= ps); }
        while i < n
            invariant
                n == ps.len(),
                i <= n,
                rest@ == ps.skip(i as int),
                kept@ == ps.take(i as int).filter(|p: LobbyPlayer| p.id != id),
            decreases n - i,
        {
            let p = rest.remove(0);
            proof {
                assert(p == ps[i as int]);
                assert(rest@ =~= ps.skip(i + 1));
                assert(ps.take(i + 1).drop_last() =~= ps.take(i as int));
                reveal_with_fuel(Seq::filter, 1);
            }
            if p.id != id {
                kept.push(p);
            }
            proof { assert(kept@ =~= ps.take(i + 1).filter(|p: LobbyPlayer| p.id != id)); }
            i += 1;
        }
        proof { assert(ps.take(n as int) =~= ps); }
        self.players = kept;
        if self.host_id == Some(id) {
            self.host_id = if self.players.len() > 0 { Some(self.players[0].id) } else { None };
        }
        proof {
            let f = |p: LobbyPlayer| p.id != id;
            if old(self)@.wf() {
                assert forall|a: int| 0 <= a < self.players@.len() implies (#[trigger] self.players@[a]).id < self.next_id by {
                    assert(ps.filter(f).contains(self.players@[a]));
                    ps.lemma_filter_contains_rev(f, self.players@[a]);
                }
                assert forall|a: int, b: int| 0 <= a < b < self.players@.len()
                    implies (#[trigger] self.players@[a]).id != (#[trigger] self.players@[b]).id by {
                    lemma_filter_keeps_distinct_ids(ps, id, a, b);
                }
            }
        }
    }

    /// Start the game on `board`: everyone is seated in joining order with the
    /// starting money, and the lobby closes.
    pub fn start_game(&mut self, board: Board)
        ensures
            final(self)@ == (LobbyView {
                game: Some(opening_game(old(self)@, board.tiles@)),
                state: LobbyState::InGame,
                ..old(self)@
            }),
    {
        let ghost l0 = self@;
        let mut players: Vec<Player> = Vec::new();
        let mut i: usize = 0;
        while i < self.players.len()
            invariant
                self@ == l0,
                i <= self.players@.len(),
                players@.len() == i,
                forall|j: int| 0 <= j < i ==> (#[trigger] players@[j])@
                    == starting_player(self.players@[j], self.ruleset.starting_money),
            decreases self.players@.len() - i,
        {
            let lp = &self.players[i];
            let p = Player::new(lp.id, lp.name.clone(), lp.token, self.ruleset.starting_money);
            players.push(p);
            i += 1;
        }

        let game = GameState {
            board,
            players,
            current_player_index: 0,
            turn_phase: TurnPhase::WaitingForRoll,
            turn_number: 0,
            last_roll: None,
            free_parking_pot: 0,
            game_over: false,
            winner: None,
            houses_remaining: self.ruleset.max_houses,
            hotels_remaining: self.ruleset.max_hotels,
            auction_passers: Vec::new(),
        };
        proof {
            assert(game@.players =~= opening_game(l0, game.board.tiles@).players);
            assert(game@ =~= opening_game(l0, game.board.tiles@));
        }
        self.game = Some(game);
        self.state = LobbyState::InGame;
    }
}

/// Filtering a list with distinct ids keeps the ids distinct.
pub proof fn lemma_filter_keeps_distinct_ids(ps: Seq<LobbyPlayer>, id: u8, a: int, b: int)
    requires
        forall|i: int, j: int| 0 <= i < j < ps.len() ==> (#[trigger] ps[i]).id != (#[trigger] ps[j]).id,
        0 <= a < b < ps.filter(|p: LobbyPlayer| p.id != id).len(),
    ensures
        ps.filter(|p: LobbyPlayer| p.id != id)[a].id != ps.filter(|p: LobbyPlayer| p.id != id)[b].id,
    decreases ps.len(),
{
    let f = |p: LobbyPlayer| p.id != id;
    let fl = ps.filter(f);
    reveal_with_fuel(Seq::filter, 1);
    if ps.len() > 0 {
        let init = ps.drop_last();
        assert forall|i: int, j: int| 0 <= i < j < init.len() implies (#[trigger] init[i]).id != (#[trigger] init[j]).id by {
            assert(init[i] == ps[i] && init[j] == ps[j]);
        }
        if f(ps.last()) {
            assert(fl == init.filter(f).push(ps.last()));
            if b < init.filter(f).len() {
                lemma_filter_keeps_distinct_ids(init, id, a, b);
            } else {
                // the last one kept is the last of ps, whose id no earlier player has
                assert(init.filter(f).contains(fl[a]));
                init.lemma_filter_contains_rev(f, fl[a]);
                let w = choose|w: int| 0 <= w < init.len() && init[w] == fl[a];
                assert(ps[w] == init[w]);
                assert(ps[w].id != ps[ps.len() - 1].id);
            }
        } else {
            assert(fl == init.filter(f));
            lemma_filter_keeps_distinct_ids(init, id, a, b);
        }
    }
}

} // verus!
