use vstd::prelude::*;
use crate::loader::LoadError;
use crate::text::text_is;

verus! {

/// A single card effect.
#[derive(Debug, Clone, Copy, PartialEq, Eq, Structural)]
pub enum CardEffect {
    /// Collect money from the bank
    Collect { amount: u32 },
    /// Pay money to the bank
    Pay { amount: u32 },
    /// Move to a specific tile index
    MoveTo { tile_index: usize },
    /// Move back n spaces
    MoveBack { spaces: usize },
    /// Go to jail immediately
    GoToJail,
    /// Receive a get out of jail free card
    GetOutOfJail,
    /// Collect from each other player
    CollectFromPlayers { amount: u32 },
    /// Pay each other player
    PayPerPlayer { amount: u32 },
    /// Pay per house and hotel owned
    PayPerHouse { per_house: u32, per_hotel: u32 },
    /// Move to nearest utility
    MoveToNearestUtility,
    /// Move to nearest railroad
    MoveToNearestRailroad,
}

#[derive(Debug)]
pub struct Card {
    pub description: String,
    pub effect: CardEffect,
}

#[derive(Debug)]
pub struct CardDecks {
    pub community_chest: Vec<Card>,
    pub chance: Vec<Card>,
    pub community_chest_index: usize,
    pub chance_index: usize,
}

/// A card as written in a deck file, before its effect is read.
#[derive(Debug)]
pub struct RawCard {
    pub description: String,
    pub effect: String,
    pub value: Option<u32>,
    pub hotel_value: Option<u32>,
}

/// Both decks as written in a deck file.
#[derive(Debug)]
pub struct RawDecks {
    pub community_chest: Vec<RawCard>,
    pub chance: Vec<RawCard>,
}

impl Card {
    /// A copy of this card.
    pub fn duplicate(&self) -> (c: Card)
        ensures
            c == *self,
    {
        Card { description: self.description.clone(), effect: self.effect }
    }
}

impl CardDecks {
    pub fn draw_community_chest(&mut self) -> (card: Card)
        requires
            old(self).community_chest_index < old(self).community_chest@.len(),
        ensures
            card == old(self).community_chest@[old(self).community_chest_index as int],
            final(self).community_chest_index
                == (old(self).community_chest_index + 1) % (old(self).community_chest@.len() as int),
            final(self).community_chest@ == old(self).community_chest@,
            final(self).chance@ == old(self).chance@,
            final(self).chance_index == old(self).chance_index,
    {
        let n = self.community_chest.len();
        let card = self.community_chest[self.community_chest_index].duplicate();
        self.community_chest_index = (self.community_chest_index + 1) % n;
        card
    }

    pub fn draw_chance(&mut self) -> (card: Card)
        requires
            old(self).chance_index < old(self).chance@.len(),
        ensures
            card == old(self).chance@[old(self).chance_index as int],
            final(self).chance_index == (old(self).chance_index + 1) % (old(self).chance@.len() as int),
            final(self).chance@ == old(self).chance@,
            final(self).community_chest@ == old(self).community_chest@,
            final(self).community_chest_index == old(self).community_chest_index,
    {
        let n = self.chance.len();
        let card = self.chance[self.chance_index].duplicate();
        self.chance_index = (self.chance_index + 1) % n;
        card
    }
}

/// The value of an optional field, 0 when it is missing.
pub open spec fn or_zero(v: Option<u32>) -> u32 {
    match v {
        Some(x) => x,
        None => 0,
    }
}

/// The effect that a deck file names, if the name is known.
pub open spec fn effect_named(raw: RawCard) -> Option<CardEffect> {
    let e = raw.effect@;
    let v = or_zero(raw.value);
    if e == "collect"@ {
        Some(CardEffect::Collect { amount: v })
    } else if e == "pay"@ {
        Some(CardEffect::Pay { amount: v })
    } else if e == "move_to"@ {
        Some(CardEffect::MoveTo { tile_index: v as usize })
    } else if e == "move_back"@ {
        Some(CardEffect::MoveBack { spaces: v as usize })
    } else if e == "go_to_jail"@ {
        Some(CardEffect::GoToJail)
    } else if e == "get_out_of_jail"@ {
        Some(CardEffect::GetOutOfJail)
    } else if e == "collect_from_players"@ {
        Some(CardEffect::CollectFromPlayers { amount: v })
    } else if e == "pay_per_player"@ {
        Some(CardEffect::PayPerPlayer { amount: v })
    } else if e == "pay_per_house"@ {
        Some(CardEffect::PayPerHouse { per_house: v, per_hotel: or_zero(raw.hotel_value) })
    } else if e == "move_to_nearest_utility"@ {
        Some(CardEffect::MoveToNearestUtility)
    } else if e == "move_to_nearest_railroad"@ {
        Some(CardEffect::MoveToNearestRailroad)
    } else {
        None
    }
}

/// Read a card's effect from its name and values.
pub fn parse_card(raw: RawCard) -> (r: Result<Card, LoadError>)
    ensures
        match effect_named(raw) {
            Some(effect) => r == Ok::<Card, LoadError>(Card { description: raw.description, effect }),
            None => r == Err::<Card, LoadError>(LoadError::UnknownCardEffect { effect: raw.effect }),
        },
{
    let v = match raw.value {
        Some(x) => x,
        None => 0,
    };
    let effect = if text_is(&raw.effect, "collect") {
        CardEffect::Collect { amount: v }
    } else if text_is(&raw.effect, "pay") {
        CardEffect::Pay { amount: v }
    } else if text_is(&raw.effect, "move_to") {
        CardEffect::MoveTo { tile_index: v as usize }
    } else if text_is(&raw.effect, "move_back") {
        CardEffect::MoveBack { spaces: v as usize }
    } else if text_is(&raw.effect, "go_to_jail") {
        CardEffect::GoToJail
    } else if text_is(&raw.effect, "get_out_of_jail") {
        CardEffect::GetOutOfJail
    } else if text_is(&raw.effect, "collect_from_players") {
        CardEffect::CollectFromPlayers { amount: v }
    } else if text_is(&raw.effect, "pay_per_player") {
        CardEffect::PayPerPlayer { amount: v }
    } else if text_is(&raw.effect, "pay_per_house") {
        let h = match raw.hotel_value {
            Some(x) => x,
            None => 0,
        };
        CardEffect::PayPerHouse { per_house: v, per_hotel: h }
    } else if text_is(&raw.effect, "move_to_nearest_utility") {
        CardEffect::MoveToNearestUtility
    } else if text_is(&raw.effect, "move_to_nearest_railroad") {
        CardEffect::MoveToNearestRailroad
    } else {
        return Err(LoadError::UnknownCardEffect { effect: raw.effect });
    };

    Ok(Card { description: raw.description, effect })
}

/// Multiplier of the generator that orders a shuffle.
pub const LCG_MULTIPLIER: u64 = 6364136223846793005;
/// Increment of the generator that orders a shuffle.
pub const LCG_INCREMENT: u64 = 1442695040888963407;

/// One step of the linear congruential generator, wrapping at 64 bits.
pub open spec fn lcg_next(r: u64) -> u64 {
    vstd::wrapping::u64_specs::wrapping_add(
        vstd::wrapping::u64_specs::wrapping_mul(r, LCG_MULTIPLIER),
        LCG_INCREMENT,
    )
}

/// `s` with the items at `i` and `j` exchanged.
pub open spec fn swapped<A>(s: Seq<A>, i: int, j: int) -> Seq<A> {
    s.update(i, s[j]).update(j, s[i])
}

/// Fisher-Yates from position `i` down to 1, each step drawing the next
/// value `r` of the generator and exchanging position `i` with `r % (i + 1)`.
pub open spec fn shuffle_down<A>(s: Seq<A>, rng: u64, i: nat) -> Seq<A>
    decreases i,
{
    if i == 0 {
        s
    } else {
        let r = lcg_next(rng);
        shuffle_down(swapped(s, i as int, (r % (i + 1) as u64) as int), r, (i - 1) as nat)
    }
}

/// The order in which `shuffle` leaves `s` for the seed `seed`.
pub open spec fn shuffled<A>(s: Seq<A>, seed: u64) -> Seq<A> {
    if s.len() <= 1 { s } else { shuffle_down(s, seed, (s.len() - 1) as nat) }
}

pub proof fn lemma_swapped_multiset<A>(s: Seq<A>, i: int, j: int)
    requires
        0 <= i < s.len(),
        0 <= j < s.len(),
    ensures
        swapped(s, i, j).to_multiset() == s.to_multiset(),
        swapped(s, i, j).len() == s.len(),
{
    broadcast use vstd::seq_lib::to_multiset_update, vstd::multiset::group_multiset_axioms;
    let s1 = s.update(i, s[j]);
    assert(s1.to_multiset() == s.to_multiset().insert(s[j]).remove(s[i]));
    assert(s1[j] == if i == j { s[j] } else { s[j] });
    assert(s1.update(j, s[i]).to_multiset() == s1.to_multiset().insert(s[i]).remove(s1[j]));
    assert(s.to_multiset().insert(s[j]).remove(s[i]).insert(s[i]).remove(s[j]) =~= s.to_multiset()) by {
        assert(s.to_multiset().count(s[i]) > 0) by {
            broadcast use vstd::seq_lib::to_multiset_contains;
            assert(s.contains(s[i]));
        }
    }
}

/// Shuffle a deck with the Fisher-Yates algorithm, ordered by a linear
/// congruential generator started from `seed`.
pub fn shuffle(cards: Vec<Card>, seed: u64) -> (r: Vec<Card>)
    ensures
        r@ == shuffled(cards@, seed),
        r@.to_multiset() == cards@.to_multiset(),
{
    let mut cards = cards;
    let ghost orig = cards@;
    let n = cards.len();
    if n <= 1 {
        return cards;
    }
    let mut rng = seed;
    let mut i: usize = n - 1;
    while i >= 1
        invariant
            n == orig.len(),
            n > 1,
            cards@.len() == n,
            i < n,
            shuffled(orig, seed) == shuffle_down(cards@, rng, i as nat),
            cards@.to_multiset() == orig.to_multiset(),
        decreases i,
    {
        rng = rng.wrapping_mul(LCG_MULTIPLIER).wrapping_add(LCG_INCREMENT);
        let j = (rng % (i as u64 + 1)) as usize;
        proof { lemma_swapped_multiset(cards@, i as int, j as int); }
        let ghost expected = swapped(cards@, i as int, j as int);
        if i != j {
            let mut tmp = Card { description: String::new(), effect: CardEffect::GoToJail };
            std::mem::swap(&mut tmp, &mut cards[i]);
            std::mem::swap(&mut tmp, &mut cards[j]);
            std::mem::swap(&mut tmp, &mut cards[i]);
        }
        proof { assert(cards@ =~= expected); }
        i -= 1;
    }
    cards
}

/// Read both decks and shuffle each with its own seed.
pub fn build_card_decks(raw: RawDecks, community_chest_seed: u64, chance_seed: u64) -> (r: Result<CardDecks, LoadError>)
    ensures
        match r {
            Ok(d) => {
                &&& cards_read(raw.community_chest@) matches Ok(cc) && d.community_chest@ == shuffled(cc, community_chest_seed)
                &&& cards_read(raw.chance@) matches Ok(ch) && d.chance@ == shuffled(ch, chance_seed)
                &&& d.community_chest_index == 0
                &&& d.chance_index == 0
            },
            Err(e) => match cards_read(raw.community_chest@) {
                Err(e1) => e == e1,
                Ok(_) => cards_read(raw.chance@) == Err::<Seq<Card>, LoadError>(e),
            },
        },
{
    let community_chest = read_cards(raw.community_chest)?;
    let chance = read_cards(raw.chance)?;

    // Shuffle both decks
    let community_chest = shuffle(community_chest, community_chest_seed);
    let chance = shuffle(chance, chance_seed);

    Ok(CardDecks { community_chest, chance, community_chest_index: 0, chance_index: 0 })
}

/// The cards of a deck file, or the first unknown effect in it.
pub open spec fn cards_read(raws: Seq<RawCard>) -> Result<Seq<Card>, LoadError>
    decreases raws.len(),
{
    if raws.len() == 0 {
        Ok(Seq::empty())
    } else {
        match cards_read(raws.drop_last()) {
            Err(e) => Err(e),
            Ok(prefix) => match effect_named(raws.last()) {
                Some(effect) => Ok(prefix.push(Card { description: raws.last().description, effect })),
                None => Err(LoadError::UnknownCardEffect { effect: raws.last().effect }),
            },
        }
    }
}

fn read_cards(raws: Vec<RawCard>) -> (r: Result<Vec<Card>, LoadError>)
    ensures
        match r {
            Ok(v) => cards_read(raws@) == Ok::<Seq<Card>, LoadError>(v@),
            Err(e) => cards_read(raws@) == Err::<Seq<Card>, LoadError>(e),
        },
{
    let ghost all = raws@;
    let mut out: Vec<Card> = Vec::new();
    let mut i: usize = 0;
    let n = raws.len();
    let mut rest = raws;
    // cards are taken from the front of `rest`, in deck order
    while i < n
        invariant
            all == raws@,
            n == all.len(),
            i <= n,
            rest@ == all.skip(i as int),
            cards_read(all.take(i as int)) == Ok::<Seq<Card>, LoadError>(out@),
        decreases n - i,
    {
        let raw = rest.remove(0);
        proof {
            assert(raw == all[i as int]);
            assert(rest@ =~= all.skip(i + 1));
            assert(all.take(i + 1).drop_last() =~= all.take(i as int));
            assert(all.take(i + 1).last() == all[i as int]);
        }
        let card = parse_card(raw);
        match card {
            Ok(c) => {
                out.push(c);
            },
            Err(e) => {
                proof {
                    assert(cards_read(all.take(i + 1)) == Err::<Seq<Card>, LoadError>(e));
                    lemma_cards_read_prefix_err(all, i as int + 1);
                }
                return Err(e);
            },
        }
        i += 1;
    }
    proof { assert(all.take(n as int) =~= all); }
    Ok(out)
}

/// An unknown effect in a prefix is the answer for the whole deck.
pub proof fn lemma_cards_read_prefix_err(all: Seq<RawCard>, k: int)
    requires
        0 <= k <= all.len(),
        cards_read(all.take(k)) is Err,
    ensures
        cards_read(all) == cards_read(all.take(k)),
    decreases all.len() - k,
{
    if k == all.len() {
        assert(all.take(k) =~= all);
    } else {
        assert(all.take(k + 1).drop_last() =~= all.take(k));
        lemma_cards_read_prefix_err(all, k + 1);
    }
}

} // verus!
