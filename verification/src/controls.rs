use vstd::prelude::*;
use crate::network::{ClientMessage, Request};
use crate::player::{Player, PlayerView};
use crate::board::{ColorGroup, Tile};
use crate::state::{GameState, GameView, TurnPhase, find_id, find_player_index, lemma_find_id_found};
use crate::trading::{without, remove_all};

verus! {

/// Number of event lines the game screen keeps.
pub const EVENT_LOG_LINES: usize = 6;

/// Which money field of the trade screen takes typed digits.
#[derive(Debug, Clone, Copy, PartialEq, Eq, Structural)]
pub enum TradeInput {
    OfferedMoney,
    RequestedMoney,
}

/// The trade being put together on the trade screen.
#[derive(Debug, Clone)]
pub struct TradeScreenState {
    pub target_player: u8,
    pub offered_properties: Vec<usize>,
    pub offered_money_input: Vec<char>,
    pub requested_properties: Vec<usize>,
    pub requested_money_input: Vec<char>,
    pub active_input: TradeInput,
}

/// A trade being put together, as a mathematical value.
#[verifier::ext_equal]
pub struct TradeView {
    pub target_player: u8,
    pub offered_properties: Seq<usize>,
    pub offered_money_input: Seq<char>,
    pub requested_properties: Seq<usize>,
    pub requested_money_input: Seq<char>,
    pub active_input: TradeInput,
}

impl View for TradeScreenState {
    type V = TradeView;

    open spec fn view(&self) -> TradeView {
        TradeView {
            target_player: self.target_player,
            offered_properties: self.offered_properties@,
            offered_money_input: self.offered_money_input@,
            requested_properties: self.requested_properties@,
            requested_money_input: self.requested_money_input@,
            active_input: self.active_input,
        }
    }
}

/// A trade screen just opened towards `target`: nothing picked, both sums "0".
pub open spec fn fresh_trade(target: u8) -> TradeView {
    TradeView {
        target_player: target,
        offered_properties: Seq::empty(),
        offered_money_input: seq!['0'],
        requested_properties: Seq::empty(),
        requested_money_input: seq!['0'],
        active_input: TradeInput::OfferedMoney,
    }
}

impl TradeScreenState {
    pub fn new(target_player: u8) -> (t: Self)
        ensures
            t@ == fresh_trade(target_player),
    {
        let t = Self {
            target_player,
            offered_properties: Vec::new(),
            offered_money_input: vec!['0'],
            requested_properties: Vec::new(),
            requested_money_input: vec!['0'],
            active_input: TradeInput::OfferedMoney,
        };
        proof { assert(t@ =~= fresh_trade(target_player)); }
        t
    }
}

/// The controls of the game screen: what is typed, what is open or picked.
pub struct GameControls {
    /// Digits typed for an auction bid
    pub bid_input: Vec<char>,
    /// The latest event lines, oldest first
    pub event_log: Vec<String>,
    pub card_panel_open: bool,
    /// The card shown in detail, if any
    pub selected_card: Option<usize>,
    pub trade_screen: Option<TradeScreenState>,
}

/// The game screen's controls as a mathematical value.
#[verifier::ext_equal]
pub struct ControlsView {
    pub bid_input: Seq<char>,
    pub event_log: Seq<Seq<char>>,
    pub card_panel_open: bool,
    pub selected_card: Option<usize>,
    pub trade_screen: Option<TradeView>,
}

/// The text of each event line.
pub open spec fn texts(lines: Seq<String>) -> Seq<Seq<char>> {
    lines.map_values(|s: String| s@)
}

impl View for GameControls {
    type V = ControlsView;

    open spec fn view(&self) -> ControlsView {
        ControlsView {
            bid_input: self.bid_input@,
            event_log: texts(self.event_log@),
            card_panel_open: self.card_panel_open,
            selected_card: self.selected_card,
            trade_screen: match self.trade_screen {
                Some(t) => Some(t@),
                None => None,
            },
        }
    }
}

/// What the player pressed or clicked during one frame. The screen finds
/// which card lies under the pointer; the rest is decided from these values.
#[derive(Debug, Clone, Copy, Default)]
pub struct FrameInput {
    /// The character typed, if any
    pub typed: Option<char>,
    /// C: open or close the card panel
    pub toggle_cards: bool,
    pub backspace: bool,
    pub enter: bool,
    pub escape: bool,
    pub tab: bool,
    pub left: bool,
    pub right: bool,
    pub space: bool,
    pub key_b: bool,
    pub key_d: bool,
    pub key_e: bool,
    pub key_m: bool,
    pub key_n: bool,
    pub key_p: bool,
    pub key_r: bool,
    pub key_t: bool,
    pub key_u: bool,
    pub key_y: bool,
    /// The card of the card panel under a left click
    pub panel_card: Option<usize>,
    /// Position, in the player's own property list, of the trade card under a left click
    pub offer_slot: Option<usize>,
    /// Position, in the trade partner's property list, of the trade card under a left click
    pub request_slot: Option<usize>,
}

// ---------------------------------------------------------------- typed amounts

pub open spec fn is_digit(c: char) -> bool {
    '0' <= c && c <= '9'
}

pub open spec fn all_digits(s: Seq<char>) -> bool {
    forall|i: int| 0 <= i < s.len() ==> is_digit(#[trigger] s[i])
}

/// The number that the decimal digits `s` spell.
pub open spec fn digits_value(s: Seq<char>) -> int
    decreases s.len(),
{
    if s.len() == 0 {
        0
    } else {
        digits_value(s.drop_last()) * 10 + (s.last() as int - 48)
    }
}

/// The amount that `s` reads as: a non-empty run of decimal digits whose
/// value fits in a `u32`.
pub open spec fn parsed_amount(s: Seq<char>) -> Option<u32> {
    if s.len() > 0 && all_digits(s) && digits_value(s) <= u32::MAX {
        Some(digits_value(s) as u32)
    } else {
        None
    }
}

/// The amount that `s` reads as, or 0.
pub open spec fn amount_or_zero(s: Seq<char>) -> u32 {
    match parsed_amount(s) {
        Some(a) => a,
        None => 0,
    }
}

/// Read an amount typed as decimal digits.
pub fn parse_amount(s: &Vec<char>) -> (r: Option<u32>)
    ensures
        r == parsed_amount(s@),
{
    if s.len() == 0 {
        return None;
    }
    // The value read so far, held at 2^32 once it no longer fits in a u32.
    let mut acc: u64 = 0;
    let mut i: usize = 0;
    while i < s.len()
        invariant
            0 < s@.len(),
            i <= s@.len(),
            all_digits(s@.take(i as int)),
            digits_value(s@.take(i as int)) >= 0,
            acc == (if digits_value(s@.take(i as int)) > u32::MAX { u32::MAX as int + 1 } else { digits_value(s@.take(i as int)) }),
        decreases s@.len() - i,
    {
        let c = s[i];
        if !('0' <= c && c <= '9') {
            proof {
                assert(s@[i as int] == c);
                assert(!is_digit(s@[i as int]));
            }
            return None;
        }
        let d = (c as u32 - 48) as u64;
        proof {
            let pre = s@.take(i as int);
            let cur = s@.take(i + 1);
            assert(cur.drop_last() =~= pre);
            assert(cur.last() == c);
            assert(digits_value(cur) == digits_value(pre) * 10 + d);
            assert forall|j: int| 0 <= j < cur.len() implies is_digit(#[trigger] cur[j]) by {
                if j < i {
                    assert(cur[j] == pre[j]);
                }
            }
        }
        let next = acc * 10 + d;
        acc = if next > 4294967296 { 4294967296 } else { next };
        i += 1;
    }
    proof { assert(s@.take(s@.len() as int) =~= s@); }
    if acc > 4294967295 {
        None
    } else {
        Some(acc as u32)
    }
}

/// What is left of `s` once its last character is erased.
pub open spec fn popped(s: Seq<char>) -> Seq<char> {
    if s.len() > 0 { s.drop_last() } else { s }
}

/// A money field after the digit `c` is typed: a lone "0" is replaced.
pub open spec fn typed_digit(field: Seq<char>, c: char) -> Seq<char> {
    if field == seq!['0'] { seq![c] } else { field.push(c) }
}

/// A money field after Backspace: an emptied field reads "0".
pub open spec fn erased(field: Seq<char>) -> Seq<char> {
    if popped(field).len() == 0 { seq!['0'] } else { popped(field) }
}

fn type_digit(field: &mut Vec<char>, c: char)
    ensures
        final(field)@ == typed_digit(old(field)@, c),
{
    if field.len() == 1 && field[0] == '0' {
        proof { assert(old(field)@ =~= seq!['0']); }
        *field = vec![c];
        proof { assert(field@ =~= seq![c]); }
    } else {
        proof {
            if old(field)@ == seq!['0'] {
                assert(old(field)@[0] == '0');
            }
        }
        field.push(c);
    }
}

fn erase_digit(field: &mut Vec<char>)
    ensures
        final(field)@ == erased(old(field)@),
{
    field.pop();
    if field.len() == 0 {
        field.push('0');
        proof { assert(field@ =~= seq!['0']); }
    }
}

// ---------------------------------------------------------------- players and picks

/// Ids of the players other than `my_id` still in the game, in seat order.
pub open spec fn partner_ids(ps: Seq<PlayerView>, my_id: u8) -> Seq<u8>
    decreases ps.len(),
{
    if ps.len() == 0 {
        Seq::empty()
    } else {
        let rest = partner_ids(ps.drop_last(), my_id);
        if ps.last().id != my_id && !ps.last().bankrupt { rest.push(ps.last().id) } else { rest }
    }
}

/// Index of the first occurrence of `x` in `s`.
pub open spec fn first_pos(s: Seq<u8>, x: u8) -> Option<int>
    decreases s.len(),
{
    if s.len() == 0 {
        None
    } else if s[0] == x {
        Some(0)
    } else {
        match first_pos(s.drop_first(), x) {
            Some(i) => Some(i + 1),
            None => None,
        }
    }
}

proof fn lemma_first_pos_first(s: Seq<u8>, x: u8, i: int)
    requires
        0 <= i < s.len(),
        s[i] == x,
        forall|j: int| 0 <= j < i ==> s[j] != x,
    ensures
        first_pos(s, x) == Some(i),
    decreases i,
{
    if i > 0 {
        assert(s.drop_first()[i - 1] == s[i]);
        lemma_first_pos_first(s.drop_first(), x, i - 1);
    }
}

proof fn lemma_first_pos_none(s: Seq<u8>, x: u8)
    requires
        forall|j: int| 0 <= j < s.len() ==> s[j] != x,
    ensures
        first_pos(s, x) is None,
    decreases s.len(),
{
    if s.len() > 0 {
        lemma_first_pos_none(s.drop_first(), x);
    }
}

/// The property list of the player with id `id`; empty when there is none.
pub open spec fn props_of(ps: Seq<PlayerView>, id: u8) -> Seq<usize> {
    match find_id(ps, id) {
        Some(i) => ps[i].properties,
        None => Seq::empty(),
    }
}

/// `s` with `t` picked, or unpicked when it was picked already.
pub open spec fn toggled(s: Seq<usize>, t: usize) -> Seq<usize> {
    if s.contains(t) { without(s, t) } else { s.push(t) }
}

fn partner_ids_of(players: &Vec<Player>, my_id: u8) -> (r: Vec<u8>)
    ensures
        r@ == partner_ids(players@.map_values(|p: Player| p@), my_id),
{
    let ghost ps = players@.map_values(|p: Player| p@);
    let mut r: Vec<u8> = Vec::new();
    let mut i: usize = 0;
    while i < players.len()
        invariant
            ps == players@.map_values(|p: Player| p@),
            i <= players@.len(),
            r@ == partner_ids(ps.take(i as int), my_id),
        decreases players@.len() - i,
    {
        proof {
            assert(ps.take(i + 1).drop_last() =~= ps.take(i as int));
            assert(ps.take(i + 1).last() == players@[i as int]@);
        }
        if players[i].id != my_id && !players[i].bankrupt {
            r.push(players[i].id);
        }
        i += 1;
    }
    proof { assert(ps.take(players@.len() as int) =~= ps); }
    r
}

fn first_position(s: &Vec<u8>, x: u8) -> (r: Option<usize>)
    ensures
        match r {
            Some(i) => first_pos(s@, x) == Some(i as int) && i < s@.len(),
            None => first_pos(s@, x) is None,
        },
{
    let mut i: usize = 0;
    while i < s.len()
        invariant
            i <= s@.len(),
            forall|j: int| 0 <= j < i ==> s@[j] != x,
        decreases s@.len() - i,
    {
        if s[i] == x {
            proof { lemma_first_pos_first(s@, x, i as int); }
            return Some(i);
        }
        i += 1;
    }
    proof { lemma_first_pos_none(s@, x); }
    None
}

fn lists_tile(v: &Vec<usize>, t: usize) -> (b: bool)
    ensures
        b == v@.contains(t),
{
    let mut i: usize = 0;
    while i < v.len()
        invariant
            i <= v@.len(),
            forall|j: int| 0 <= j < i ==> v@[j] != t,
        decreases v@.len() - i,
    {
        if v[i] == t {
            proof { assert(v@[i as int] == t); }
            return true;
        }
        i += 1;
    }
    false
}

fn toggle(v: &mut Vec<usize>, t: usize)
    ensures
        final(v)@ == toggled(old(v)@, t),
{
    if lists_tile(v, t) {
        remove_all(v, t);
    } else {
        v.push(t);
    }
}

// ---------------------------------------------------------------- card panel

/// What the card panel groups a player's cards by.
#[derive(Debug, Clone, Copy, PartialEq, Eq, Structural)]
pub enum CardGroup {
    Color(ColorGroup),
    Railroad,
    Utility,
}

/// The group the card of tile `t` goes in; tiles that are not owned have none.
pub open spec fn card_group(t: Tile) -> Option<CardGroup> {
    match t {
        Tile::Property(p) => Some(CardGroup::Color(p.color_group)),
        Tile::Railroad(_) => Some(CardGroup::Railroad),
        Tile::Utility(_) => Some(CardGroup::Utility),
        _ => None,
    }
}

/// Index of the first group with key `k`.
pub open spec fn group_pos(gs: Seq<(CardGroup, Seq<usize>)>, k: CardGroup) -> Option<int>
    decreases gs.len(),
{
    if gs.len() == 0 {
        None
    } else if gs[0].0 == k {
        Some(0)
    } else {
        match group_pos(gs.drop_first(), k) {
            Some(i) => Some(i + 1),
            None => None,
        }
    }
}

/// The cards of `props` by group: groups in the order their first card
/// comes, cards in list order within each.
pub open spec fn grouped(tiles: Seq<Tile>, props: Seq<usize>) -> Seq<(CardGroup, Seq<usize>)>
    decreases props.len(),
{
    if props.len() == 0 {
        Seq::empty()
    } else {
        let gs = grouped(tiles, props.drop_last());
        let t = props.last();
        match card_group(tiles[t as int]) {
            None => gs,
            Some(k) => match group_pos(gs, k) {
                Some(i) => gs.update(i, (k, gs[i].1.push(t))),
                None => gs.push((k, seq![t])),
            },
        }
    }
}

/// The groups with their card lists read as sequences.
pub open spec fn group_lists(v: Seq<(CardGroup, Vec<usize>)>) -> Seq<(CardGroup, Seq<usize>)> {
    v.map_values(|g: (CardGroup, Vec<usize>)| (g.0, g.1@))
}

proof fn lemma_group_pos_first(gs: Seq<(CardGroup, Seq<usize>)>, k: CardGroup, i: int)
    requires
        0 <= i < gs.len(),
        gs[i].0 == k,
        forall|j: int| 0 <= j < i ==> gs[j].0 != k,
    ensures
        group_pos(gs, k) == Some(i),
    decreases i,
{
    if i > 0 {
        assert(gs.drop_first()[i - 1] == gs[i]);
        lemma_group_pos_first(gs.drop_first(), k, i - 1);
    }
}

proof fn lemma_group_pos_none(gs: Seq<(CardGroup, Seq<usize>)>, k: CardGroup)
    requires
        forall|j: int| 0 <= j < gs.len() ==> gs[j].0 != k,
    ensures
        group_pos(gs, k) is None,
    decreases gs.len(),
{
    if gs.len() > 0 {
        lemma_group_pos_none(gs.drop_first(), k);
    }
}

/// Group a player's cards for the card panel.
pub fn group_properties(state: &GameState, properties: &Vec<usize>) -> (groups: Vec<(CardGroup, Vec<usize>)>)
    requires
        forall|i: int| 0 <= i < properties@.len() ==> properties@[i] < state@.tiles.len(),
    ensures
        group_lists(groups@) == grouped(state@.tiles, properties@),
{
    let ghost tiles = state@.tiles;
    let mut groups: Vec<(CardGroup, Vec<usize>)> = Vec::new();
    let mut n: usize = 0;
    while n < properties.len()
        invariant
            tiles == state@.tiles,
            n <= properties@.len(),
            forall|i: int| 0 <= i < properties@.len() ==> properties@[i] < tiles.len(),
            group_lists(groups@) == grouped(tiles, properties@.take(n as int)),
        decreases properties@.len() - n,
    {
        let t = properties[n];
        proof {
            assert(properties@.take(n + 1).drop_last() =~= properties@.take(n as int));
            assert(properties@.take(n + 1).last() == t);
        }
        let key = match &state.board.tiles[t] {
            Tile::Property(p) => Some(CardGroup::Color(p.color_group)),
            Tile::Railroad(_) => Some(CardGroup::Railroad),
            Tile::Utility(_) => Some(CardGroup::Utility),
            _ => None,
        };
        match key {
            Some(k) => {
                let ghost gs = group_lists(groups@);
                let mut i: usize = 0;
                while i < groups.len() && groups[i].0 != k
                    invariant
                        gs == group_lists(groups@),
                        i <= groups@.len(),
                        forall|j: int| 0 <= j < i ==> gs[j].0 != k,
                    decreases groups@.len() - i,
                {
                    i += 1;
                }
                if i < groups.len() {
                    proof { lemma_group_pos_first(gs, k, i as int); }
                    groups[i].1.push(t);
                    proof { assert(group_lists(groups@) =~= gs.update(i as int, (k, gs[i as int].1.push(t)))); }
                } else {
                    proof { lemma_group_pos_none(gs, k); }
                    let mut cards: Vec<usize> = Vec::new();
                    cards.push(t);
                    proof { assert(cards@ =~= seq![t]); }
                    groups.push((k, cards));
                    proof { assert(group_lists(groups@) =~= gs.push((k, seq![t]))); }
                }
            },
            None => {},
        }
        n += 1;
    }
    proof { assert(properties@.take(properties@.len() as int) =~= properties@); }
    groups
}

// ---------------------------------------------------------------- one frame

/// The messages a list of client messages stands for.
pub open spec fn requests(ms: Seq<ClientMessage>) -> Seq<Request> {
    ms.map_values(|m: ClientMessage| m@)
}

proof fn lemma_requests_push(ms: Seq<ClientMessage>, m: ClientMessage)
    ensures
        requests(ms.push(m)) == requests(ms).push(m@),
        requests(Seq::<ClientMessage>::empty()) == Seq::<Request>::empty(),
{
    assert(requests(ms.push(m)) =~= requests(ms).push(m@));
    assert(requests(Seq::<ClientMessage>::empty()) =~= Seq::<Request>::empty());
}

/// C opens or closes the card panel.
pub open spec fn with_cards_toggled(c: ControlsView, input: FrameInput) -> ControlsView {
    if input.toggle_cards { ControlsView { card_panel_open: !c.card_panel_open, ..c } } else { c }
}

/// During an auction: digits build the bid, Backspace erases one, Enter
/// sends a bid that reads as an amount and clears it, P passes and clears it.
pub open spec fn auction_keys(c: ControlsView, input: FrameInput) -> (ControlsView, Seq<Request>) {
    let b1 = match input.typed {
        Some(ch) => if is_digit(ch) { c.bid_input.push(ch) } else { c.bid_input },
        None => c.bid_input,
    };
    let b2 = if input.backspace { popped(b1) } else { b1 };
    let bids = input.enter && parsed_amount(b2) is Some;
    let m1 = if bids { seq![Request::PlaceBid { amount: parsed_amount(b2).unwrap() }] } else { Seq::empty() };
    let b3 = if bids { Seq::empty() } else { b2 };
    let m2 = if input.key_p { m1.push(Request::PassBid) } else { m1 };
    let b4 = if input.key_p { Seq::empty() } else { b3 };
    (ControlsView { bid_input: b4, ..c }, m2)
}

/// Left and Right move the trade to the previous or next player in the game,
/// dropping what was asked of the former partner.
pub open spec fn switched_partner(t: TradeView, g: GameView, my_id: u8, input: FrameInput) -> TradeView {
    let active = partner_ids(g.players, my_id);
    if (input.left || input.right) && first_pos(active, t.target_player) is Some {
        let pos = first_pos(active, t.target_player).unwrap();
        let next = if input.right {
            if pos + 1 == active.len() { 0 } else { pos + 1 }
        } else {
            if pos == 0 { active.len() - 1 } else { pos - 1 }
        };
        TradeView { target_player: active[next], requested_properties: Seq::empty(), ..t }
    } else {
        t
    }
}

/// Tab moves typing to the other money field.
pub open spec fn switched_field(t: TradeView, input: FrameInput) -> TradeView {
    if input.tab {
        TradeView {
            active_input: match t.active_input {
                TradeInput::OfferedMoney => TradeInput::RequestedMoney,
                TradeInput::RequestedMoney => TradeInput::OfferedMoney,
            },
            ..t
        }
    } else {
        t
    }
}

/// A typed digit goes to the money field being typed in; Backspace erases from it.
pub open spec fn edited_money(t: TradeView, input: FrameInput) -> TradeView {
    let t1 = match input.typed {
        Some(ch) => if is_digit(ch) {
            match t.active_input {
                TradeInput::OfferedMoney => TradeView { offered_money_input: typed_digit(t.offered_money_input, ch), ..t },
                TradeInput::RequestedMoney => TradeView { requested_money_input: typed_digit(t.requested_money_input, ch), ..t },
            }
        } else {
            t
        },
        None => t,
    };
    if input.backspace {
        match t1.active_input {
            TradeInput::OfferedMoney => TradeView { offered_money_input: erased(t1.offered_money_input), ..t1 },
            TradeInput::RequestedMoney => TradeView { requested_money_input: erased(t1.requested_money_input), ..t1 },
        }
    } else {
        t1
    }
}

/// The trade proposal that Enter sends; a field that reads as no amount offers 0.
pub open spec fn proposal(t: TradeView) -> Request {
    Request::ProposeTrade {
        to_player: t.target_player,
        offered_properties: t.offered_properties,
        offered_money: amount_or_zero(t.offered_money_input),
        requested_properties: t.requested_properties,
        requested_money: amount_or_zero(t.requested_money_input),
    }
}

/// A click on one's own card picks or unpicks it for the offer; a click on
/// the partner's card picks or unpicks it for the request.
pub open spec fn picked(t: TradeView, g: GameView, my_id: u8, input: FrameInput) -> TradeView {
    let mine = props_of(g.players, my_id);
    let t1 = match input.offer_slot {
        Some(i) => if i < mine.len() {
            TradeView { offered_properties: toggled(t.offered_properties, mine[i as int]), ..t }
        } else {
            t
        },
        None => t,
    };
    let theirs = props_of(g.players, t1.target_player);
    match input.request_slot {
        Some(i) => if i < theirs.len() {
            TradeView { requested_properties: toggled(t1.requested_properties, theirs[i as int]), ..t1 }
        } else {
            t1
        },
        None => t1,
    }
}

/// On the trade screen: edit the trade; Enter proposes it and closes the
/// screen, Escape closes it, clicks pick cards.
pub open spec fn trade_keys(c: ControlsView, g: GameView, my_id: u8, input: FrameInput) -> (ControlsView, Seq<Request>) {
    let t = edited_money(switched_field(switched_partner(c.trade_screen.unwrap(), g, my_id, input), input), input);
    if input.enter {
        (ControlsView { trade_screen: None, ..c }, seq![proposal(t)])
    } else if input.escape {
        (ControlsView { trade_screen: None, ..c }, Seq::empty())
    } else {
        (ControlsView { trade_screen: Some(picked(t, g, my_id, input)), ..c }, Seq::empty())
    }
}

/// The player whose turn it is has id `my_id`.
pub open spec fn my_turn(g: GameView, my_id: u8) -> bool {
    g.current().id == my_id
}

/// T, after one's own roll, opens the trade screen towards the first other
/// player still in the game, closing the card view and panel.
pub open spec fn with_trade_opened(c: ControlsView, g: GameView, my_id: u8, input: FrameInput) -> ControlsView {
    let partners = partner_ids(g.players, my_id);
    if g.turn_phase == TurnPhase::PostRoll && my_turn(g, my_id) && input.key_t && partners.len() > 0 {
        ControlsView { trade_screen: Some(fresh_trade(partners[0])), selected_card: None, card_panel_open: false, ..c }
    } else {
        c
    }
}

/// On the card shown in detail: M mortgages, U lifts the mortgage (both close
/// the view), B builds.
pub open spec fn card_actions(c: ControlsView, input: FrameInput) -> (ControlsView, Seq<Request>) {
    match c.selected_card {
        Some(tile) => {
            let m1 = if input.key_m { seq![Request::Mortgage { tile_index: tile }] } else { Seq::empty() };
            let m2 = if input.key_u { m1.push(Request::Unmortgage { tile_index: tile }) } else { m1 };
            let m3 = if input.key_b { m2.push(Request::BuildHouse { tile_index: tile }) } else { m2 };
            let closes = input.key_m || input.key_u;
            (ControlsView { selected_card: if closes { None } else { c.selected_card }, ..c }, m3)
        },
        None => (c, Seq::empty()),
    }
}

/// Escape closes the card view; a click on a card of the open panel shows it,
/// or closes it when it is the card shown.
pub open spec fn with_card_clicked(c: ControlsView, input: FrameInput) -> ControlsView {
    let c1 = if input.escape { ControlsView { selected_card: None, ..c } } else { c };
    match input.panel_card {
        Some(tile) => if c1.card_panel_open {
            ControlsView { selected_card: if c1.selected_card == Some(tile) { None } else { Some(tile) }, ..c1 }
        } else {
            c1
        },
        None => c1,
    }
}

/// The keys of one's own turn, by phase.
pub open spec fn turn_keys(phase: TurnPhase, selected: Option<usize>, input: FrameInput) -> Seq<Request> {
    match phase {
        TurnPhase::WaitingForRoll => if input.space { seq![Request::RollDice] } else { Seq::empty() },
        TurnPhase::BuyDecision { .. } => {
            let m = if input.key_b && selected is None { seq![Request::BuyProperty] } else { Seq::empty() };
            if input.key_d { m.push(Request::DeclineProperty) } else { m }
        },
        TurnPhase::PostRoll => if input.key_e { seq![Request::EndTurn] } else { Seq::empty() },
        TurnPhase::JailDecision => {
            let m = if input.key_p { seq![Request::PayJailFine] } else { Seq::empty() };
            if input.key_r { m.push(Request::RollForJail) } else { m }
        },
        TurnPhase::PayingRent { .. } => if input.key_e { seq![Request::PayRent] } else { Seq::empty() },
        _ => Seq::empty(),
    }
}

/// The board's keys: trade screen, card view, trade answers (Y, N), turn keys.
pub open spec fn play_keys(c: ControlsView, g: GameView, my_id: u8, input: FrameInput) -> (ControlsView, Seq<Request>) {
    let acted = card_actions(with_trade_opened(c, g, my_id, input), input);
    let c3 = with_card_clicked(acted.0, input);
    let m2 = if input.key_y { acted.1.push(Request::AcceptTrade) } else { acted.1 };
    let m3 = if input.key_n { m2.push(Request::RejectTrade) } else { m2 };
    let m4 = if my_turn(g, my_id) { m3 + turn_keys(g.turn_phase, c3.selected_card, input) } else { m3 };
    (c3, m4)
}

/// One frame of the game screen: the controls after it and the messages it
/// sends, in order. An auction takes every key; then an open trade screen does.
pub open spec fn frame_outcome(c: ControlsView, g: GameView, my_id: u8, input: FrameInput) -> (ControlsView, Seq<Request>) {
    let c0 = with_cards_toggled(c, input);
    if g.turn_phase is Auction {
        auction_keys(c0, input)
    } else if c0.trade_screen is Some {
        trade_keys(c0, g, my_id, input)
    } else {
        play_keys(c0, g, my_id, input)
    }
}

/// The board's keys read whose turn it is.
pub open spec fn frame_in_range(c: ControlsView, g: GameView) -> bool {
    (!(g.turn_phase is Auction) && c.trade_screen is None) ==> g.has_current()
}

/// The messages of the keys of one's own turn.
fn turn_requests(phase: TurnPhase, selected: Option<usize>, input: &FrameInput) -> (sent: Vec<ClientMessage>)
    ensures
        requests(sent@) == turn_keys(phase, selected, *input),
{
    let mut sent: Vec<ClientMessage> = Vec::new();
    proof { lemma_requests_push(sent@, ClientMessage::PassBid); }
    match phase {
        TurnPhase::WaitingForRoll => {
            if input.space {
                proof { lemma_requests_push(sent@, ClientMessage::RollDice); }
                sent.push(ClientMessage::RollDice);
            }
        },
        TurnPhase::BuyDecision { .. } => {
            if input.key_b && selected.is_none() {
                proof { lemma_requests_push(sent@, ClientMessage::BuyProperty); }
                sent.push(ClientMessage::BuyProperty);
            }
            if input.key_d {
                proof { lemma_requests_push(sent@, ClientMessage::DeclineProperty); }
                sent.push(ClientMessage::DeclineProperty);
            }
        },
        TurnPhase::PostRoll => {
            if input.key_e {
                proof { lemma_requests_push(sent@, ClientMessage::EndTurn); }
                sent.push(ClientMessage::EndTurn);
            }
        },
        TurnPhase::JailDecision => {
            if input.key_p {
                proof { lemma_requests_push(sent@, ClientMessage::PayJailFine); }
                sent.push(ClientMessage::PayJailFine);
            }
            if input.key_r {
                proof { lemma_requests_push(sent@, ClientMessage::RollForJail); }
                sent.push(ClientMessage::RollForJail);
            }
        },
        TurnPhase::PayingRent { .. } => {
            if input.key_e {
                proof { lemma_requests_push(sent@, ClientMessage::PayRent); }
                sent.push(ClientMessage::PayRent);
            }
        },
        _ => {},
    }
    proof { assert(requests(sent@) =~= turn_keys(phase, selected, *input)); }
    sent
}

/// What can be typed into the controls: bid digits, and trade sums that are
/// non-empty runs of digits.
pub open spec fn controls_wf(c: ControlsView) -> bool {
    &&& all_digits(c.bid_input)
    &&& c.trade_screen matches Some(t) ==> {
        &&& all_digits(t.offered_money_input) && t.offered_money_input.len() > 0
        &&& all_digits(t.requested_money_input) && t.requested_money_input.len() > 0
    }
}

proof fn lemma_typed_digit_wf(field: Seq<char>, ch: char)
    requires
        all_digits(field),
        is_digit(ch),
    ensures
        all_digits(typed_digit(field, ch)),
        typed_digit(field, ch).len() > 0,
{
    if field != seq!['0'] {
        assert forall|i: int| 0 <= i < field.push(ch).len() implies is_digit(#[trigger] field.push(ch)[i]) by {
            if i < field.len() {
                assert(field.push(ch)[i] == field[i]);
            }
        }
    }
}

proof fn lemma_erased_wf(field: Seq<char>)
    requires
        all_digits(field),
    ensures
        all_digits(erased(field)),
        erased(field).len() > 0,
{
    if field.len() > 0 {
        assert forall|i: int| 0 <= i < field.drop_last().len() implies is_digit(#[trigger] field.drop_last()[i]) by {
            assert(field.drop_last()[i] == field[i]);
        }
    }
}

/// Whatever is pressed, the bid holds digits only and the trade sums stay
/// non-empty runs of digits, so each reads as the amount its digits spell.
pub proof fn law_typed_fields_hold_digits(c: ControlsView, g: GameView, my_id: u8, input: FrameInput)
    requires
        controls_wf(c),
    ensures
        controls_wf(frame_outcome(c, g, my_id, input).0),
{
    let c0 = with_cards_toggled(c, input);
    if g.turn_phase is Auction {
        let b1 = match input.typed {
            Some(ch) => if is_digit(ch) { c0.bid_input.push(ch) } else { c0.bid_input },
            None => c0.bid_input,
        };
        assert(all_digits(b1)) by {
            if let Some(ch) = input.typed {
                if is_digit(ch) {
                    assert forall|i: int| 0 <= i < b1.len() implies is_digit(#[trigger] b1[i]) by {
                        if i < c0.bid_input.len() {
                            assert(b1[i] == c0.bid_input[i]);
                        }
                    }
                }
            }
        }
        assert(all_digits(popped(b1))) by {
            if b1.len() > 0 {
                assert forall|i: int| 0 <= i < b1.drop_last().len() implies is_digit(#[trigger] b1.drop_last()[i]) by {
                    assert(b1.drop_last()[i] == b1[i]);
                }
            }
        }
    } else if c0.trade_screen is Some {
        let t = c0.trade_screen.unwrap();
        let t2 = switched_field(switched_partner(t, g, my_id, input), input);
        if let Some(ch) = input.typed {
            if is_digit(ch) {
                lemma_typed_digit_wf(t2.offered_money_input, ch);
                lemma_typed_digit_wf(t2.requested_money_input, ch);
            }
        }
        let t3 = match input.typed {
            Some(ch) => if is_digit(ch) {
                match t2.active_input {
                    TradeInput::OfferedMoney => TradeView { offered_money_input: typed_digit(t2.offered_money_input, ch), ..t2 },
                    TradeInput::RequestedMoney => TradeView { requested_money_input: typed_digit(t2.requested_money_input, ch), ..t2 },
                }
            } else {
                t2
            },
            None => t2,
        };
        lemma_erased_wf(t3.offered_money_input);
        lemma_erased_wf(t3.requested_money_input);
    } else {
        let partners = partner_ids(g.players, my_id);
        if partners.len() > 0 {
            assert(all_digits(fresh_trade(partners[0]).offered_money_input));
            assert(all_digits(fresh_trade(partners[0]).requested_money_input));
        }
    }
}

/// A money field holds a number written without a leading zero: "0" alone,
/// or digits that do not start with "0".
pub open spec fn no_leading_zero(field: Seq<char>) -> bool {
    field.len() > 0 && (field.len() > 1 ==> field[0] != '0')
}

/// Both sums of an open trade screen are written without a leading zero.
pub open spec fn trade_sums_clean(c: ControlsView) -> bool {
    c.trade_screen matches Some(t) ==> no_leading_zero(t.offered_money_input) && no_leading_zero(t.requested_money_input)
}

proof fn lemma_edits_keep_no_leading_zero(field: Seq<char>, ch: char)
    requires
        no_leading_zero(field),
    ensures
        no_leading_zero(typed_digit(field, ch)),
        no_leading_zero(erased(field)),
{
    if field != seq!['0'] {
        assert(field.push(ch)[0] == field[0]);
        if field.len() == 1 {
            assert(field =~= seq![field[0]]);
        }
    }
    if field.len() > 2 {
        assert(field.drop_last()[0] == field[0]);
    }
}

/// Whatever is pressed, the trade screen's sums never get a leading zero:
/// typing a digit over a lone "0" replaces it, and erasing the last digit
/// leaves "0".
pub proof fn law_trade_sums_have_no_leading_zero(c: ControlsView, g: GameView, my_id: u8, input: FrameInput)
    requires
        trade_sums_clean(c),
    ensures
        trade_sums_clean(frame_outcome(c, g, my_id, input).0),
{
    let c0 = with_cards_toggled(c, input);
    if g.turn_phase is Auction {
    } else if c0.trade_screen is Some {
        let t = c0.trade_screen.unwrap();
        let t2 = switched_field(switched_partner(t, g, my_id, input), input);
        if let Some(ch) = input.typed {
            lemma_edits_keep_no_leading_zero(t2.offered_money_input, ch);
            lemma_edits_keep_no_leading_zero(t2.requested_money_input, ch);
        }
        let t3 = match input.typed {
            Some(ch) => if is_digit(ch) {
                match t2.active_input {
                    TradeInput::OfferedMoney => TradeView { offered_money_input: typed_digit(t2.offered_money_input, ch), ..t2 },
                    TradeInput::RequestedMoney => TradeView { requested_money_input: typed_digit(t2.requested_money_input, ch), ..t2 },
                }
            } else {
                t2
            },
            None => t2,
        };
        lemma_edits_keep_no_leading_zero(t3.offered_money_input, ' ');
        lemma_edits_keep_no_leading_zero(t3.requested_money_input, ' ');
    } else {
        let partners = partner_ids(g.players, my_id);
        if partners.len() > 0 {
            assert(no_leading_zero(fresh_trade(partners[0]).offered_money_input));
        }
    }
}

impl GameControls {
    pub fn new() -> (c: Self)
        ensures
            c@ == (ControlsView {
                bid_input: Seq::empty(),
                event_log: Seq::empty(),
                card_panel_open: false,
                selected_card: None,
                trade_screen: None,
            }),
    {
        let c = Self {
            bid_input: Vec::new(),
            event_log: Vec::new(),
            card_panel_open: false,
            selected_card: None,
            trade_screen: None,
        };
        proof { assert(c@.event_log =~= Seq::<Seq<char>>::empty()); }
        c
    }

    /// Log an event line, keeping the latest lines only.
    pub fn push_event(&mut self, msg: String)
        ensures
            final(self)@ == (ControlsView {
                event_log: if old(self)@.event_log.len() + 1 > EVENT_LOG_LINES {
                    old(self)@.event_log.push(msg@).drop_first()
                } else {
                    old(self)@.event_log.push(msg@)
                },
                ..old(self)@
            }),
    {
        let ghost m = msg@;
        self.event_log.push(msg);
        proof { assert(texts(self.event_log@) =~= old(self)@.event_log.push(m)); }
        if self.event_log.len() > EVENT_LOG_LINES {
            let ghost before = self.event_log@;
            self.event_log.remove(0);
            proof { assert(texts(self.event_log@) =~= texts(before).drop_first()); }
        }
    }

    /// Decide one frame: update the controls and give the messages to send.
    pub fn respond(&mut self, state: &GameState, my_id: u8, input: &FrameInput) -> (sent: Vec<ClientMessage>)
        requires
            frame_in_range(old(self)@, state@),
        ensures
            final(self)@ == frame_outcome(old(self)@, state@, my_id, *input).0,
            requests(sent@) == frame_outcome(old(self)@, state@, my_id, *input).1,
    {
        if input.toggle_cards {
            self.card_panel_open = !self.card_panel_open;
        }
        proof { assert(self@ =~= with_cards_toggled(old(self)@, *input)); }
        let in_auction = match state.turn_phase {
            TurnPhase::Auction { .. } => true,
            _ => false,
        };
        if in_auction {
            return self.handle_auction(input);
        }
        if self.trade_screen.is_some() {
            return self.handle_trade(state, my_id, input);
        }
        self.handle_play(state, my_id, input)
    }

    fn handle_auction(&mut self, input: &FrameInput) -> (sent: Vec<ClientMessage>)
        ensures
            final(self)@ == auction_keys(old(self)@, *input).0,
            requests(sent@) == auction_keys(old(self)@, *input).1,
    {
        let mut sent: Vec<ClientMessage> = Vec::new();
        proof { lemma_requests_push(sent@, ClientMessage::PassBid); }
        match input.typed {
            Some(ch) => {
                if '0' <= ch && ch <= '9' {
                    self.bid_input.push(ch);
                }
            },
            None => {},
        }
        if input.backspace {
            self.bid_input.pop();
        }
        if input.enter {
            match parse_amount(&self.bid_input) {
                Some(amount) => {
                    proof { lemma_requests_push(sent@, ClientMessage::PlaceBid { amount }); }
                    sent.push(ClientMessage::PlaceBid { amount });
                    self.bid_input = Vec::new();
                },
                None => {},
            }
        }
        if input.key_p {
            proof { lemma_requests_push(sent@, ClientMessage::PassBid); }
            sent.push(ClientMessage::PassBid);
            self.bid_input = Vec::new();
        }
        proof {
            assert(self@ =~= auction_keys(old(self)@, *input).0);
            assert(requests(sent@) =~= auction_keys(old(self)@, *input).1);
        }
        sent
    }

    fn handle_trade(&mut self, state: &GameState, my_id: u8, input: &FrameInput) -> (sent: Vec<ClientMessage>)
        requires
            old(self).trade_screen is Some,
        ensures
            final(self)@ == trade_keys(old(self)@, state@, my_id, *input).0,
            requests(sent@) == trade_keys(old(self)@, state@, my_id, *input).1,
    {
        let ghost c = self@;
        let ghost g = state@;
        let mut slot: Option<TradeScreenState> = None;
        std::mem::swap(&mut slot, &mut self.trade_screen);
        let mut t = match slot {
            Some(t) => t,
            None => {
                assert(false);
                return Vec::new();
            },
        };
        let ghost t0 = t@;
        if input.left || input.right {
            let active = partner_ids_of(&state.players, my_id);
            match first_position(&active, t.target_player) {
                Some(pos) => {
                    let n = active.len();
                    let next = if input.right {
                        if pos + 1 == n { 0 } else { pos + 1 }
                    } else {
                        if pos == 0 { n - 1 } else { pos - 1 }
                    };
                    t.target_player = active[next];
                    t.requested_properties = Vec::new();
                },
                None => {},
            }
        }
        proof { assert(t@ =~= switched_partner(t0, g, my_id, *input)); }
        let ghost t1 = t@;
        if input.tab {
            t.active_input = match t.active_input {
                TradeInput::OfferedMoney => TradeInput::RequestedMoney,
                TradeInput::RequestedMoney => TradeInput::OfferedMoney,
            };
        }
        proof { assert(t@ =~= switched_field(t1, *input)); }
        let ghost t2 = t@;
        match input.typed {
            Some(ch) => {
                if '0' <= ch && ch <= '9' {
                    match t.active_input {
                        TradeInput::OfferedMoney => type_digit(&mut t.offered_money_input, ch),
                        TradeInput::RequestedMoney => type_digit(&mut t.requested_money_input, ch),
                    }
                }
            },
            None => {},
        }
        if input.backspace {
            match t.active_input {
                TradeInput::OfferedMoney => erase_digit(&mut t.offered_money_input),
                TradeInput::RequestedMoney => erase_digit(&mut t.requested_money_input),
            }
        }
        proof { assert(t@ =~= edited_money(t2, *input)); }
        let ghost t3 = t@;
        if input.enter {
            let offered_money = match parse_amount(&t.offered_money_input) {
                Some(a) => a,
                None => 0,
            };
            let requested_money = match parse_amount(&t.requested_money_input) {
                Some(a) => a,
                None => 0,
            };
            let msg = ClientMessage::ProposeTrade {
                to_player: t.target_player,
                offered_properties: t.offered_properties,
                offered_money,
                requested_properties: t.requested_properties,
                requested_money,
            };
            let ghost m = msg;
            let sent = vec![msg];
            proof {
                assert(m@ == proposal(t3));
                assert(requests(sent@) =~= seq![proposal(t3)]);
                assert(self@ =~= ControlsView { trade_screen: None, ..c });
            }
            return sent;
        }
        if input.escape {
            let sent: Vec<ClientMessage> = Vec::new();
            proof {
                assert(requests(sent@) =~= Seq::<Request>::empty());
                assert(self@ =~= ControlsView { trade_screen: None, ..c });
            }
            return sent;
        }
        match input.offer_slot {
            Some(i) => {
                proof { lemma_find_id_found(g.players, my_id); }
                match find_player_index(&state.players, my_id) {
                    Some(k) => {
                        if i < state.players[k].properties.len() {
                            let tile = state.players[k].properties[i];
                            toggle(&mut t.offered_properties, tile);
                        }
                    },
                    None => {},
                }
            },
            None => {},
        }
        let ghost t4 = t@;
        match input.request_slot {
            Some(i) => {
                proof { lemma_find_id_found(g.players, t.target_player); }
                match find_player_index(&state.players, t.target_player) {
                    Some(k) => {
                        if i < state.players[k].properties.len() {
                            let tile = state.players[k].properties[i];
                            toggle(&mut t.requested_properties, tile);
                        }
                    },
                    None => {},
                }
            },
            None => {},
        }
        proof { assert(t@ =~= picked(t3, g, my_id, *input)); }
        self.trade_screen = Some(t);
        let sent: Vec<ClientMessage> = Vec::new();
        proof {
            assert(requests(sent@) =~= Seq::<Request>::empty());
            assert(self@ =~= ControlsView { trade_screen: Some(picked(t3, g, my_id, *input)), ..c });
        }
        sent
    }

    fn open_trade(&mut self, state: &GameState, my_id: u8, input: &FrameInput)
        requires
            state@.has_current(),
        ensures
            final(self)@ == with_trade_opened(old(self)@, state@, my_id, *input),
    {
        let mine = state.players[state.current_player_index].id == my_id;
        if state.turn_phase == TurnPhase::PostRoll && mine && input.key_t {
            let partners = partner_ids_of(&state.players, my_id);
            if partners.len() > 0 {
                self.trade_screen = Some(TradeScreenState::new(partners[0]));
                self.selected_card = None;
                self.card_panel_open = false;
            }
        }
        proof { assert(self@ =~= with_trade_opened(old(self)@, state@, my_id, *input)); }
    }

    fn act_on_card(&mut self, input: &FrameInput) -> (sent: Vec<ClientMessage>)
        ensures
            final(self)@ == card_actions(old(self)@, *input).0,
            requests(sent@) == card_actions(old(self)@, *input).1,
    {
        let mut sent: Vec<ClientMessage> = Vec::new();
        proof { lemma_requests_push(sent@, ClientMessage::PassBid); }
        match self.selected_card {
            Some(tile) => {
                if input.key_m {
                    proof { lemma_requests_push(sent@, ClientMessage::Mortgage { tile_index: tile }); }
                    sent.push(ClientMessage::Mortgage { tile_index: tile });
                    self.selected_card = None;
                }
                if input.key_u {
                    proof { lemma_requests_push(sent@, ClientMessage::Unmortgage { tile_index: tile }); }
                    sent.push(ClientMessage::Unmortgage { tile_index: tile });
                    self.selected_card = None;
                }
                if input.key_b {
                    proof { lemma_requests_push(sent@, ClientMessage::BuildHouse { tile_index: tile }); }
                    sent.push(ClientMessage::BuildHouse { tile_index: tile });
                }
            },
            None => {},
        }
        proof {
            assert(self@ =~= card_actions(old(self)@, *input).0);
            assert(requests(sent@) =~= card_actions(old(self)@, *input).1);
        }
        sent
    }

    fn click_card(&mut self, input: &FrameInput)
        ensures
            final(self)@ == with_card_clicked(old(self)@, *input),
    {
        if input.escape {
            self.selected_card = None;
        }
        if self.card_panel_open {
            match input.panel_card {
                Some(tile) => {
                    let shown = match self.selected_card {
                        Some(s) => s == tile,
                        None => false,
                    };
                    self.selected_card = if shown { None } else { Some(tile) };
                },
                None => {},
            }
        }
        proof { assert(self@ =~= with_card_clicked(old(self)@, *input)); }
    }

    fn handle_play(&mut self, state: &GameState, my_id: u8, input: &FrameInput) -> (sent: Vec<ClientMessage>)
        requires
            state@.has_current(),
        ensures
            final(self)@ == play_keys(old(self)@, state@, my_id, *input).0,
            requests(sent@) == play_keys(old(self)@, state@, my_id, *input).1,
    {
        self.open_trade(state, my_id, input);
        let mut sent = self.act_on_card(input);
        self.click_card(input);
        if input.key_y {
            proof { lemma_requests_push(sent@, ClientMessage::AcceptTrade); }
            sent.push(ClientMessage::AcceptTrade);
        }
        if input.key_n {
            proof { lemma_requests_push(sent@, ClientMessage::RejectTrade); }
            sent.push(ClientMessage::RejectTrade);
        }
        if state.players[state.current_player_index].id == my_id {
            let mut more = turn_requests(state.turn_phase, self.selected_card, input);
            proof { assert(requests(sent@ + more@) =~= requests(sent@) + requests(more@)); }
            sent.append(&mut more);
        }
        sent
    }
}

} // verus!
