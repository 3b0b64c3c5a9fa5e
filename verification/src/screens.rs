use vstd::prelude::*;
use crate::controls::{ControlsView, GameControls};
use crate::network::{ClientMessage, Note, Request, ServerMessage, roster_entries};
use crate::player::Token;
use crate::board::Tile;
use crate::state::{GameState, GameView};
use vstd::string::StrSliceExecFns;

verus! {

// ---------------------------------------------------------------- board labels

/// The first `n` characters of `s`, or all of it when it is shorter.
pub open spec fn first_chars(s: Seq<char>, n: nat) -> Seq<char> {
    if s.len() <= n { s } else { s.take(n as int) }
}

/// The label a board tile shows: the first seven characters of a named
/// tile's name, a fixed word for the others.
pub open spec fn label_text(t: Tile) -> Seq<char> {
    match t {
        Tile::Property(p) => first_chars(p.name@, 7),
        Tile::Railroad(r) => first_chars(r.name@, 7),
        Tile::Utility(u) => first_chars(u.name@, 7),
        Tile::Tax(x) => first_chars(x.name@, 7),
        Tile::Go => "GO"@,
        Tile::Jail => "JAIL"@,
        Tile::FreeParking => "FREE"@,
        Tile::GoToJail => "GO JAIL"@,
        Tile::CommunityChest => "COM CHT"@,
        Tile::Chance => "CHANCE"@,
    }
}

fn first_seven(s: &String) -> (r: String)
    ensures
        r@ == first_chars(s@, 7),
{
    let text = s.as_str();
    let len = text.unicode_len();
    let end = if len < 7 { len } else { 7 };
    let r = text.substring_char(0, end).to_owned();
    proof {
        if s@.len() <= 7 {
            assert(s@.subrange(0, end as int) =~= s@);
        }
    }
    r
}

/// The label a board tile shows.
pub fn tile_label(tile: &Tile) -> (s: String)
    ensures
        s@ == label_text(*tile),
{
    match tile {
        Tile::Property(p) => first_seven(&p.name),
        Tile::Railroad(r) => first_seven(&r.name),
        Tile::Utility(u) => first_seven(&u.name),
        Tile::Tax(t) => first_seven(&t.name),
        Tile::Go => "GO".to_owned(),
        Tile::Jail => "JAIL".to_owned(),
        Tile::FreeParking => "FREE".to_owned(),
        Tile::GoToJail => "GO JAIL".to_owned(),
        Tile::CommunityChest => "COM CHT".to_owned(),
        Tile::Chance => "CHANCE".to_owned(),
    }
}

// ---------------------------------------------------------------- connect screen

/// The field of the connect screen that takes typing.
#[derive(Debug, Clone, Copy, PartialEq, Eq, Structural)]
pub enum ConnectField {
    Address,
    Name,
}

/// The connect screen's form: server address and player name.
#[derive(Debug, Clone)]
pub struct ConnectForm {
    pub addr_input: Vec<char>,
    pub name_input: Vec<char>,
    pub active_field: ConnectField,
    /// Enter was pressed without a name
    pub name_missing: bool,
}

#[verifier::ext_equal]
pub struct FormView {
    pub addr_input: Seq<char>,
    pub name_input: Seq<char>,
    pub active_field: ConnectField,
    pub name_missing: bool,
}

impl View for ConnectForm {
    type V = FormView;

    open spec fn view(&self) -> FormView {
        FormView {
            addr_input: self.addr_input@,
            name_input: self.name_input@,
            active_field: self.active_field,
            name_missing: self.name_missing,
        }
    }
}

/// What was pressed on the connect screen during one frame.
#[derive(Debug, Clone, Copy, Default)]
pub struct ConnectKeys {
    pub typed: Option<char>,
    pub tab: bool,
    pub enter: bool,
    pub backspace: bool,
}

/// Where the connect screen sends the player: the server address and the name to join as.
#[derive(Debug)]
pub struct JoinRequest {
    pub addr: Vec<char>,
    pub name: Vec<char>,
}

/// The characters that Unicode counts as white space.
pub open spec fn is_white_space(c: char) -> bool {
    ||| '\t' <= c <= '\r'
    ||| c == ' ' || c == '\u{85}' || c == '\u{a0}' || c == '\u{1680}'
    ||| '\u{2000}' <= c <= '\u{200a}'
    ||| c == '\u{2028}' || c == '\u{2029}' || c == '\u{202f}' || c == '\u{205f}' || c == '\u{3000}'
}

/// The printable ASCII characters other than the space.
pub open spec fn is_graphic(c: char) -> bool {
    '!' <= c <= '~'
}

pub open spec fn trim_start(s: Seq<char>) -> Seq<char>
    decreases s.len(),
{
    if s.len() > 0 && is_white_space(s[0]) { trim_start(s.drop_first()) } else { s }
}

pub open spec fn trim_end(s: Seq<char>) -> Seq<char>
    decreases s.len(),
{
    if s.len() > 0 && is_white_space(s.last()) { trim_end(s.drop_last()) } else { s }
}

/// `s` without white space at either end.
pub open spec fn trimmed(s: Seq<char>) -> Seq<char> {
    trim_end(trim_start(s))
}

/// The printable characters of `s`, in order.
pub open spec fn graphic_only(s: Seq<char>) -> Seq<char>
    decreases s.len(),
{
    if s.len() == 0 {
        s
    } else if is_graphic(s.last()) {
        graphic_only(s.drop_last()).push(s.last())
    } else {
        graphic_only(s.drop_last())
    }
}

/// The address field as the screen first shows it.
pub open spec fn default_address() -> Seq<char> {
    seq!['1', '2', '7', '.', '0', '.', '0', '.', '1', ':', '7', '7', '7', '7']
}

/// One frame of the connect screen: Tab switches field; Enter asks to join
/// when a name is given (the address keeps its printable characters, the
/// name loses white space at its ends), else flags the missing name; other
/// typed characters but tab and line breaks go to the field; Backspace
/// erases from it.
pub open spec fn connect_frame(f: FormView, k: ConnectKeys) -> (FormView, Option<(Seq<char>, Seq<char>)>) {
    let f1 = if k.tab {
        FormView {
            active_field: match f.active_field {
                ConnectField::Address => ConnectField::Name,
                ConnectField::Name => ConnectField::Address,
            },
            ..f
        }
    } else {
        f
    };
    if k.enter {
        if trimmed(f1.name_input).len() == 0 {
            (FormView { name_missing: true, ..f1 }, None)
        } else {
            (f1, Some((graphic_only(f1.addr_input), trimmed(f1.name_input))))
        }
    } else {
        let f2 = match k.typed {
            Some(c) => if c != '\t' && c != '\r' && c != '\n' {
                match f1.active_field {
                    ConnectField::Address => FormView { addr_input: f1.addr_input.push(c), ..f1 },
                    ConnectField::Name => FormView { name_input: f1.name_input.push(c), ..f1 },
                }
            } else {
                f1
            },
            None => f1,
        };
        let f3 = if k.backspace {
            match f2.active_field {
                ConnectField::Address => FormView { addr_input: if f2.addr_input.len() > 0 { f2.addr_input.drop_last() } else { f2.addr_input }, ..f2 },
                ConnectField::Name => FormView { name_input: if f2.name_input.len() > 0 { f2.name_input.drop_last() } else { f2.name_input }, ..f2 },
            }
        } else {
            f2
        };
        (f3, None)
    }
}

fn white_space(c: char) -> (b: bool)
    ensures
        b == is_white_space(c),
{
    ('\t' <= c && c <= '\r') || c == ' ' || c == '\u{85}' || c == '\u{a0}' || c == '\u{1680}'
        || ('\u{2000}' <= c && c <= '\u{200a}') || c == '\u{2028}' || c == '\u{2029}' || c == '\u{202f}'
        || c == '\u{205f}' || c == '\u{3000}'
}

/// `s` without white space at either end.
pub fn trim(s: &Vec<char>) -> (r: Vec<char>)
    ensures
        r@ == trimmed(s@),
{
    let n = s.len();
    let mut i: usize = 0;
    proof { assert(s@.skip(0) =~= s@); }
    while i < n && white_space(s[i])
        invariant
            n == s@.len(),
            i <= n,
            trim_start(s@.skip(i as int)) == trim_start(s@),
        decreases n - i,
    {
        proof { assert(s@.skip(i as int).drop_first() =~= s@.skip(i + 1)); }
        i += 1;
    }
    let ghost front = s@.skip(i as int);
    proof { assert(trim_start(front) == front); }
    let mut j: usize = n;
    while j > i && white_space(s[j - 1])
        invariant
            n == s@.len(),
            i <= j <= n,
            front == s@.skip(i as int),
            trim_end(s@.subrange(i as int, j as int)) == trim_end(front),
        decreases j - i,
    {
        proof { assert(s@.subrange(i as int, j as int).drop_last() =~= s@.subrange(i as int, j - 1)); }
        j -= 1;
    }
    proof {
        assert(front =~= s@.subrange(i as int, n as int));
    }
    let mut r: Vec<char> = Vec::new();
    let mut k: usize = i;
    while k < j
        invariant
            n == s@.len(),
            i <= k <= j <= n,
            r@ == s@.subrange(i as int, k as int),
        decreases j - k,
    {
        r.push(s[k]);
        proof { assert(r@ =~= s@.subrange(i as int, k + 1)); }
        k += 1;
    }
    r
}

/// The printable characters of `s`, in order.
pub fn keep_graphic(s: &Vec<char>) -> (r: Vec<char>)
    ensures
        r@ == graphic_only(s@),
{
    let mut r: Vec<char> = Vec::new();
    let mut i: usize = 0;
    while i < s.len()
        invariant
            i <= s@.len(),
            r@ == graphic_only(s@.take(i as int)),
        decreases s@.len() - i,
    {
        proof {
            assert(s@.take(i + 1).drop_last() =~= s@.take(i as int));
            assert(s@.take(i + 1).last() == s@[i as int]);
        }
        let c = s[i];
        if '!' <= c && c <= '~' {
            r.push(c);
        }
        i += 1;
    }
    proof { assert(s@.take(s@.len() as int) =~= s@); }
    r
}

impl ConnectForm {
    pub fn new() -> (f: Self)
        ensures
            f@ == (FormView {
                addr_input: default_address(),
                name_input: Seq::empty(),
                active_field: ConnectField::Address,
                name_missing: false,
            }),
    {
        let f = Self {
            addr_input: vec!['1', '2', '7', '.', '0', '.', '0', '.', '1', ':', '7', '7', '7', '7'],
            name_input: Vec::new(),
            active_field: ConnectField::Address,
            name_missing: false,
        };
        proof { assert(f@.addr_input =~= default_address()); }
        f
    }

    /// Decide one frame of the connect screen.
    pub fn respond(&mut self, keys: &ConnectKeys) -> (r: Option<JoinRequest>)
        ensures
            final(self)@ == connect_frame(old(self)@, *keys).0,
            match r {
                Some(j) => connect_frame(old(self)@, *keys).1 == Some((j.addr@, j.name@)),
                None => connect_frame(old(self)@, *keys).1 is None,
            },
    {
        if keys.tab {
            self.active_field = match self.active_field {
                ConnectField::Address => ConnectField::Name,
                ConnectField::Name => ConnectField::Address,
            };
        }
        if keys.enter {
            let name = trim(&self.name_input);
            if name.len() == 0 {
                self.name_missing = true;
                return None;
            }
            let addr = keep_graphic(&self.addr_input);
            return Some(JoinRequest { addr, name });
        }
        match keys.typed {
            Some(c) => {
                if c != '\t' && c != '\r' && c != '\n' {
                    match self.active_field {
                        ConnectField::Address => self.addr_input.push(c),
                        ConnectField::Name => self.name_input.push(c),
                    }
                }
            },
            None => {},
        }
        if keys.backspace {
            match self.active_field {
                ConnectField::Address => {
                    self.addr_input.pop();
                },
                ConnectField::Name => {
                    self.name_input.pop();
                },
            }
        }
        proof { assert(self@ =~= connect_frame(old(self)@, *keys).0); }
        None
    }
}

// ---------------------------------------------------------------- lobby screen

/// The lobby as the client sees it.
#[derive(Debug, Clone)]
pub struct LobbyRoster {
    /// The id the server gave this player, once it answered
    pub my_id: Option<u8>,
    pub players: Vec<(u8, String, Token)>,
    /// The name to join as
    pub name: String,
    /// Whether the join request went out
    pub joined: bool,
}

#[verifier::ext_equal]
pub struct RosterView {
    pub my_id: Option<u8>,
    pub players: Seq<(u8, Seq<char>, Token)>,
    pub name: Seq<char>,
    pub joined: bool,
}

impl View for LobbyRoster {
    type V = RosterView;

    open spec fn view(&self) -> RosterView {
        RosterView {
            my_id: self.my_id,
            players: roster_entries(self.players@),
            name: self.name@,
            joined: self.joined,
        }
    }
}

/// One frame of the lobby screen: the join request goes out once, then S
/// asks the server to start the game.
pub open spec fn lobby_frame(r: RosterView, key_s: bool) -> (RosterView, Seq<Request>) {
    let m1 = if !r.joined { seq![Request::Join { name: r.name, token: Token::Car }] } else { Seq::empty() };
    let m2 = if key_s { m1.push(Request::StartGame) } else { m1 };
    (RosterView { joined: true, ..r }, m2)
}

impl LobbyRoster {
    pub fn new(name: String) -> (r: Self)
        ensures
            r@ == (RosterView { my_id: None, players: Seq::empty(), name: name@, joined: false }),
    {
        let r = Self { my_id: None, players: Vec::new(), name, joined: false };
        proof { assert(r@.players =~= Seq::<(u8, Seq<char>, Token)>::empty()); }
        r
    }

    /// Decide one frame of the lobby screen.
    pub fn respond(&mut self, key_s: bool) -> (sent: Vec<ClientMessage>)
        ensures
            final(self)@ == lobby_frame(old(self)@, key_s).0,
            sent@.map_values(|m: ClientMessage| m@) == lobby_frame(old(self)@, key_s).1,
    {
        let mut sent: Vec<ClientMessage> = Vec::new();
        if !self.joined {
            sent.push(ClientMessage::Join { name: self.name.clone(), token: Token::Car });
            self.joined = true;
        }
        if key_s {
            sent.push(ClientMessage::StartGame);
        }
        proof {
            assert(sent@.map_values(|m: ClientMessage| m@) =~= lobby_frame(old(self)@, key_s).1);
            assert(self@ =~= lobby_frame(old(self)@, key_s).0);
        }
        sent
    }
}

// ---------------------------------------------------------------- screens

/// A seat at the table: the game as last heard, whose seat it is, and the controls.
pub struct GameSeat {
    pub state: GameState,
    pub my_id: u8,
    pub controls: GameControls,
}

/// The screen the client shows.
pub enum ClientScreen {
    Connect(ConnectForm),
    Lobby(LobbyRoster),
    Game(GameSeat),
    GameOver { winner_id: u8, winner_name: String },
}

pub enum ScreenView {
    Connect(FormView),
    Lobby(RosterView),
    Game { state: GameView, my_id: u8, controls: ControlsView },
    GameOver { winner_id: u8, winner_name: Seq<char> },
}

impl View for ClientScreen {
    type V = ScreenView;

    open spec fn view(&self) -> ScreenView {
        match self {
            ClientScreen::Connect(f) => ScreenView::Connect(f@),
            ClientScreen::Lobby(r) => ScreenView::Lobby(r@),
            ClientScreen::Game(seat) => ScreenView::Game { state: seat.state@, my_id: seat.my_id, controls: seat.controls@ },
            ClientScreen::GameOver { winner_id, winner_name } => ScreenView::GameOver { winner_id: *winner_id, winner_name: winner_name@ },
        }
    }
}

/// Controls of a game screen just opened.
pub open spec fn fresh_controls() -> ControlsView {
    ControlsView { bid_input: Seq::empty(), event_log: Seq::empty(), card_panel_open: false, selected_card: None, trade_screen: None }
}

/// The screen after a message from the server: the lobby learns the player's
/// id and who is there; the first state update opens the game (seating the
/// player as 0 if no id came), later ones replace the state; the end of the
/// game shows the winner from any screen.
pub open spec fn heard(s: ScreenView, n: Note) -> ScreenView {
    match n {
        Note::JoinAck { assigned_id } => match s {
            ScreenView::Lobby(r) => ScreenView::Lobby(RosterView { my_id: Some(assigned_id), ..r }),
            _ => s,
        },
        Note::LobbyState { players } => match s {
            ScreenView::Lobby(r) => ScreenView::Lobby(RosterView { players, ..r }),
            _ => s,
        },
        Note::PlayerJoined { id, name, token } => match s {
            ScreenView::Lobby(r) => ScreenView::Lobby(RosterView { players: r.players.push((id, name, token)), ..r }),
            _ => s,
        },
        Note::StateUpdate { state } => match s {
            ScreenView::Lobby(r) => ScreenView::Game {
                state,
                my_id: match r.my_id { Some(i) => i, None => 0 },
                controls: fresh_controls(),
            },
            ScreenView::Game { state: _, my_id, controls } => ScreenView::Game { state, my_id, controls },
            _ => s,
        },
        Note::GameOver { winner_id, winner_name } => ScreenView::GameOver { winner_id, winner_name },
        _ => s,
    }
}

impl ClientScreen {
    /// The first screen: the connect form.
    pub fn start() -> (s: Self)
        ensures
            s@ matches ScreenView::Connect(f) && f.addr_input == default_address() && f.name_input.len() == 0
                && f.active_field == ConnectField::Address && !f.name_missing,
    {
        ClientScreen::Connect(ConnectForm::new())
    }

    /// Take in a message from the server.
    pub fn hear(&mut self, msg: ServerMessage)
        ensures
            final(self)@ == heard(old(self)@, msg@),
    {
        let ghost n = msg@;
        match msg {
            ServerMessage::JoinAck { assigned_id } => {
                if let ClientScreen::Lobby(r) = self {
                    r.my_id = Some(assigned_id);
                }
            },
            ServerMessage::LobbyState { players } => {
                if let ClientScreen::Lobby(r) = self {
                    r.players = players;
                }
            },
            ServerMessage::PlayerJoined { id, name, token } => {
                if let ClientScreen::Lobby(r) = self {
                    let ghost before = r.players@;
                    r.players.push((id, name, token));
                    proof { assert(roster_entries(r.players@) =~= roster_entries(before).push((id, name@, token))); }
                }
            },
            ServerMessage::StateUpdate { state } => {
                let seat_id = match self {
                    ClientScreen::Lobby(r) => Some(match r.my_id { Some(i) => i, None => 0 }),
                    _ => None,
                };
                match seat_id {
                    Some(my_id) => {
                        *self = ClientScreen::Game(GameSeat { state, my_id, controls: GameControls::new() });
                    },
                    None => {
                        if let ClientScreen::Game(seat) = self {
                            seat.state = state;
                        }
                    },
                }
            },
            ServerMessage::GameOver { winner_id, winner_name } => {
                *self = ClientScreen::GameOver { winner_id, winner_name };
            },
            _ => {},
        }
        proof { assert(self@ == heard(old(self)@, n)); }
    }
}

} // verus!
