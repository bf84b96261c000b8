use vstd::prelude::*;
use sha2::{Digest, Sha256};

use crate::random::{le_bytes, le_bytes_of, le_value, u64_from_le};

verus! {

/// The betting round a table has reached.
#[derive(Clone, Copy, Debug, PartialEq, Eq, Structural)]
pub enum GameState {
    PreFlop,
    Flop,
    Turn,
    River,
}

impl GameState {
    /// The phase that follows in the order pre-flop, flop, turn, river; none after the river.
    pub open spec fn spec_next(self) -> Option<GameState> {
        match self {
            GameState::PreFlop => Some(GameState::Flop),
            GameState::Flop => Some(GameState::Turn),
            GameState::Turn => Some(GameState::River),
            GameState::River => None,
        }
    }

    /// The phase that follows this one, if any.
    pub fn next(&self) -> (r: Option<GameState>)
        ensures
            r == self.spec_next(),
    {
        match self {
            GameState::PreFlop => Some(GameState::Flop),
            GameState::Flop => Some(GameState::Turn),
            GameState::Turn => Some(GameState::River),
            GameState::River => None,
        }
    }
}

/// A playing card: the suit in the high four bits of the byte, the rank in the low four.
#[derive(Clone, Copy, Debug, PartialEq, Eq, Structural)]
pub struct Card(pub u8);

impl Card {
    /// The card of suit 0..=3 and rank 1..=13.
    pub open spec fn of(suit: int, rank: int) -> Card {
        Card((suit * 16 + rank) as u8)
    }

    /// A card of the standard deck.
    pub open spec fn is_valid(self) -> bool {
        self.0 / 16 < 4 && 1 <= self.0 % 16 <= 13
    }

    /// The card of `suit` (0..=3) and `rank` (1..=13).
    pub fn new(suit: u8, rank: u8) -> (r: Card)
        requires
            suit < 4,
            1 <= rank <= 13,
        ensures
            r == Card::of(suit as int, rank as int),
            r.is_valid(),
    {
        assert(((suit << 4u8) | rank) == suit * 16 + rank) by (bit_vector)
            requires
                suit < 4,
                rank < 16,
        ;
        Card((suit << 4) | rank)
    }

    /// The suit: the high four bits.
    pub fn suit(&self) -> (r: u8)
        ensures
            r == self.0 / 16,
    {
        let b = self.0;
        assert(b >> 4u8 == b / 16) by (bit_vector);
        b >> 4
    }

    /// The rank: the low four bits.
    pub fn rank(&self) -> (r: u8)
        ensures
            r == self.0 % 16,
    {
        let b = self.0;
        assert(b & 15u8 == b % 16) by (bit_vector);
        b & 0b1111
    }

    /// The byte that encodes the card.
    pub fn to_bytes(&self) -> (r: u8)
        ensures
            r == self.0,
    {
        self.0
    }

    /// The card that `byte` encodes.
    pub fn from_bytes(byte: u8) -> (r: Card)
        ensures
            r.0 == byte,
    {
        Card(byte)
    }
}

/// The 52 cards in suit-major, rank-ascending order.
pub open spec fn canonical_deck() -> Seq<Card> {
    Seq::new(52, |i: int| Card::of(i / 13, i % 13 + 1))
}

/// The canonical deck holds 52 distinct cards of the standard deck.
pub proof fn lemma_canonical_deck_distinct()
    ensures
        canonical_deck().len() == 52,
        canonical_deck().no_duplicates(),
        forall|i: int| 0 <= i < 52 ==> #[trigger] canonical_deck()[i].is_valid(),
{
    let d = canonical_deck();
    assert forall|i: int, j: int| 0 <= i < 52 && 0 <= j < 52 && i != j implies d[i] != d[j] by {
        assert((i / 13 * 16 + i % 13 + 1) as u8 != (j / 13 * 16 + j % 13 + 1) as u8);
    }
    assert forall|i: int| 0 <= i < 52 implies #[trigger] d[i].is_valid() by {
        let v = i / 13 * 16 + i % 13 + 1;
        assert(v / 16 == i / 13 && v % 16 == i % 13 + 1);
    }
}

/// An ordered sequence of cards, consumed front to back when dealing.
#[derive(Clone, Debug, PartialEq, Eq)]
pub struct Deck {
    pub cards: Vec<Card>,
}

impl Deck {
    /// A fresh deck in canonical order.
    pub fn new() -> (r: Deck)
        ensures
            r.cards@ == canonical_deck(),
    {
        let mut cards: Vec<Card> = Vec::new();
        let mut suit: u8 = 0;
        while suit < 4
            invariant
                suit <= 4,
                cards@ == canonical_deck().take(13 * suit as int),
            decreases 4 - suit,
        {
            let mut rank: u8 = 1;
            while rank <= 13
                invariant
                    suit < 4,
                    1 <= rank <= 14,
                    cards@ == canonical_deck().take(13 * suit as int + rank - 1),
                decreases 14 - rank,
            {
                let ghost k = 13 * suit as int + rank - 1;
                cards.push(Card::new(suit, rank));
                assert(k / 13 == suit as int && k % 13 + 1 == rank as int);
                assert(cards@ =~= canonical_deck().take(k + 1));
                rank = rank + 1;
            }
            suit = suit + 1;
        }
        assert(cards@ =~= canonical_deck());
        Deck { cards }
    }

    /// The bytes of the cards, in order.
    pub fn to_bytes(&self) -> (r: Vec<u8>)
        ensures
            r@ == self.cards@.map_values(|c: Card| c.0),
    {
        let mut out: Vec<u8> = Vec::new();
        let mut i: usize = 0;
        while i < self.cards.len()
            invariant
                i <= self.cards@.len(),
                out@ == self.cards@.take(i as int).map_values(|c: Card| c.0),
            decreases self.cards@.len() - i,
        {
            out.push(self.cards[i].0);
            i = i + 1;
            assert(out@ =~= self.cards@.take(i as int).map_values(|c: Card| c.0));
        }
        assert(self.cards@.take(i as int) =~= self.cards@);
        out
    }

    /// The deck whose cards the bytes encode, in order.
    pub fn from_bytes(bytes: &[u8]) -> (r: Deck)
        ensures
            r.cards@ == bytes@.map_values(|b: u8| Card(b)),
    {
        let mut cards: Vec<Card> = Vec::new();
        let mut i: usize = 0;
        while i < bytes.len()
            invariant
                i <= bytes@.len(),
                cards@ == bytes@.take(i as int).map_values(|b: u8| Card(b)),
            decreases bytes@.len() - i,
        {
            cards.push(Card(bytes[i]));
            i = i + 1;
            assert(cards@ =~= bytes@.take(i as int).map_values(|b: u8| Card(b)));
        }
        assert(bytes@.take(i as int) =~= bytes@);
        Deck { cards }
    }
}

/// What `sha2::Sha256` computes of `data`.
pub uninterp spec fn sha256_of(data: Seq<u8>) -> Seq<u8>;

/// Relies on sha2::Sha256::digest: the SHA-256 digest of `data`, 32 bytes long.
#[verifier::external_body]
fn sha256(data: &[u8]) -> (r: Vec<u8>)
    ensures
        r@ == sha256_of(data@),
        r@.len() == 32,
{
    Sha256::digest(data).to_vec()
}

/// The index drawn at step `round` of the shuffle with `seed`: the hash of the two numbers'
/// little-endian bytes, read as a little-endian `u64`, modulo `max + 1`.
pub open spec fn derived_index(seed: u64, round: u64, max: nat) -> nat {
    le_value(sha256_of(le_bytes(seed as nat, 8) + le_bytes(round as nat, 8)).take(8)) % (max + 1)
}

/// Reads the first eight bytes of `digest` as a little-endian `u64` and reduces it modulo
/// `max + 1`.
pub fn index_from_digest(digest: &[u8], max: usize) -> (r: usize)
    requires
        digest@.len() >= 8,
        max < usize::MAX,
    ensures
        r as nat == le_value(digest@.take(8)) % (max as nat + 1),
        r <= max,
{
    let v = u64_from_le(digest);
    let m: u64 = max as u64 + 1;
    (v % m) as usize
}

/// The index that step `round` of the shuffle with `seed` swaps with.
pub fn generate_derived_random_index(seed: u64, round: u64, max: usize) -> (r: usize)
    requires
        max < usize::MAX,
    ensures
        r as nat == derived_index(seed, round, max as nat),
        r <= max,
{
    let mut bytes = le_bytes_of(seed as u128, 8);
    let mut round_bytes = le_bytes_of(round as u128, 8);
    bytes.append(&mut round_bytes);
    let hash = sha256(bytes.as_slice());
    index_from_digest(hash.as_slice(), max)
}

/// `s` with the cards at `i` and `j` exchanged.
pub open spec fn swap_cards(s: Seq<Card>, i: int, j: int) -> Seq<Card> {
    s.update(i, s[j]).update(j, s[i])
}

/// The Fisher-Yates steps `l`, `l - 1`, ..., 1 with `seed`, applied to `s`.
pub open spec fn fisher_yates(s: Seq<Card>, seed: u64, l: nat) -> Seq<Card>
    decreases l,
{
    if l == 0 {
        s
    } else {
        fisher_yates(swap_cards(s, l as int, derived_index(seed, l as u64, l) as int), seed, (l - 1) as nat)
    }
}

/// `s` shuffled with `seed`.
pub open spec fn shuffled(s: Seq<Card>, seed: u64) -> Seq<Card> {
    if s.len() == 0 {
        s
    } else {
        fisher_yates(s, seed, (s.len() - 1) as nat)
    }
}

/// Same length, same cards.
pub open spec fn same_cards(a: Seq<Card>, b: Seq<Card>) -> bool {
    a.len() == b.len() && forall|c: Card| a.contains(c) <==> b.contains(c)
}

proof fn lemma_swap_keeps_cards(s: Seq<Card>, i: int, j: int)
    requires
        0 <= i < s.len(),
        0 <= j < s.len(),
    ensures
        same_cards(s, swap_cards(s, i, j)),
        s.no_duplicates() ==> swap_cards(s, i, j).no_duplicates(),
        swap_cards(s, i, j).to_multiset() == s.to_multiset(),
{
    let t = swap_cards(s, i, j);
    let t1 = s.update(i, s[j]);
    vstd::seq_lib::to_multiset_update(s, i, s[j]);
    vstd::seq_lib::to_multiset_update(t1, j, s[i]);
    assert(t1[j] == s[j]);
    assert(t.to_multiset() =~= s.to_multiset()) by {
        broadcast use vstd::multiset::group_multiset_axioms;
        assert(s.to_multiset().contains(s[i])) by {
            vstd::seq_lib::to_multiset_contains(s, s[i]);
        }
    }
    assert forall|c: Card| s.contains(c) implies t.contains(c) by {
        let k = choose|k: int| 0 <= k < s.len() && s[k] == c;
        if k == i {
            assert(t[j] == c);
        } else if k == j {
            assert(t[i] == c);
        } else {
            assert(t[k] == c);
        }
    }
    assert forall|c: Card| t.contains(c) implies s.contains(c) by {
        let k = choose|k: int| 0 <= k < t.len() && t[k] == c;
        if k == j {
            assert(s[i] == c);
        } else if k == i {
            assert(s[j] == c);
        } else {
            assert(s[k] == c);
        }
    }
    if s.no_duplicates() {
        assert forall|a: int, b: int| 0 <= a < t.len() && 0 <= b < t.len() && a != b implies t[a] != t[b] by {
            let sa = if a == j { i } else if a == i { j } else { a };
            let sb = if b == j { i } else if b == i { j } else { b };
            assert(t[a] == s[sa] && t[b] == s[sb]);
        }
    }
}

/// Shuffling keeps the cards: same length, same members with the same multiplicities, and no
/// card repeated if none was.
pub proof fn lemma_shuffle_keeps_cards(s: Seq<Card>, seed: u64, l: nat)
    requires
        l < s.len(),
    ensures
        same_cards(s, fisher_yates(s, seed, l)),
        s.no_duplicates() ==> fisher_yates(s, seed, l).no_duplicates(),
        fisher_yates(s, seed, l).to_multiset() == s.to_multiset(),
    decreases l,
{
    if l > 0 {
        let t = swap_cards(s, l as int, derived_index(seed, l as u64, l) as int);
        lemma_swap_keeps_cards(s, l as int, derived_index(seed, l as u64, l) as int);
        lemma_shuffle_keeps_cards(t, seed, (l - 1) as nat);
    }
}

/// Fisher-Yates shuffle: for the working length `L` from the last index down to 1, swaps the
/// card at `L` with the one at the index derived from `seed` and `L`.
pub fn shuffle_deck(deck: &mut Deck, seed: u64)
    ensures
        final(deck).cards@ == shuffled(old(deck).cards@, seed),
        same_cards(old(deck).cards@, final(deck).cards@),
        final(deck).cards@.to_multiset() == old(deck).cards@.to_multiset(),
        old(deck).cards@.no_duplicates() ==> final(deck).cards@.no_duplicates(),
{
    let ghost orig = deck.cards@;
    let mut deck_len = deck.cards.len();
    while deck_len > 1
        invariant
            deck_len <= orig.len(),
            deck.cards@.len() == orig.len(),
            orig.len() == 0 || (deck_len >= 1 && fisher_yates(deck.cards@, seed, (deck_len - 1) as nat)
                == shuffled(orig, seed)),
        decreases deck_len,
    {
        deck_len = deck_len - 1;
        let random_index = generate_derived_random_index(seed, deck_len as u64, deck_len);
        let a = deck.cards[deck_len];
        let b = deck.cards[random_index];
        let ghost before = deck.cards@;
        deck.cards.set(deck_len, b);
        deck.cards.set(random_index, a);
        assert(deck.cards@ =~= swap_cards(before, deck_len as int, random_index as int));
    }
    proof {
        if orig.len() > 0 {
            lemma_shuffle_keeps_cards(orig, seed, (orig.len() - 1) as nat);
        }
    }
}

/// The three flop cards, their viewing secret, and when they were first disclosed.
#[derive(Clone, Debug, PartialEq, Eq)]
pub struct Flop {
    pub cards: Vec<Card>,
    pub secret: u64,
    pub retrieved_at: Option<u64>,
}

/// The turn card, its viewing secret, and when it was first disclosed.
#[derive(Clone, Debug, PartialEq, Eq)]
pub struct Turn {
    pub card: Card,
    pub secret: u64,
    pub retrieved_at: Option<u64>,
}

/// The river card, its viewing secret, and when it was first disclosed.
#[derive(Clone, Debug, PartialEq, Eq)]
pub struct River {
    pub card: Card,
    pub secret: u64,
    pub retrieved_at: Option<u64>,
}

/// The three streets of a hand.
#[derive(Clone, Debug, PartialEq, Eq)]
pub struct CommunityCards {
    pub flop: Flop,
    pub turn: Turn,
    pub river: River,
}

impl CommunityCards {
    /// The cards of the street that `game_state` names (none for the pre-flop).
    pub open spec fn street_cards(self, game_state: GameState) -> Seq<Card> {
        match game_state {
            GameState::PreFlop => Seq::empty(),
            GameState::Flop => self.flop.cards@,
            GameState::Turn => seq![self.turn.card],
            GameState::River => seq![self.river.card],
        }
    }

    /// The viewing secret of the street that `game_state` names.
    pub open spec fn street_secret(self, game_state: GameState) -> u64 {
        match game_state {
            GameState::PreFlop => 0,
            GameState::Flop => self.flop.secret,
            GameState::Turn => self.turn.secret,
            GameState::River => self.river.secret,
        }
    }

    /// The five community cards: flop, turn, river.
    pub open spec fn all_cards(self) -> Seq<Card> {
        self.flop.cards@ + seq![self.turn.card, self.river.card]
    }

    /// The community cards not yet reached at `game_state`; none once the river is reached.
    pub open spec fn remaining_after(self, game_state: GameState) -> Option<Seq<Card>> {
        match game_state {
            GameState::PreFlop => Some(self.all_cards()),
            GameState::Flop => Some(seq![self.turn.card, self.river.card]),
            GameState::Turn => Some(seq![self.river.card]),
            GameState::River => None,
        }
    }

    /// The street of `game_state` with its disclosure time set to `now`, unless it was set.
    pub open spec fn marked(self, game_state: GameState, now: u64) -> CommunityCards {
        match game_state {
            GameState::PreFlop => self,
            GameState::Flop => CommunityCards {
                flop: Flop {
                    retrieved_at: if self.flop.retrieved_at is Some { self.flop.retrieved_at } else { Some(now) },
                    ..self.flop
                },
                ..self
            },
            GameState::Turn => CommunityCards {
                turn: Turn {
                    retrieved_at: if self.turn.retrieved_at is Some { self.turn.retrieved_at } else { Some(now) },
                    ..self.turn
                },
                ..self
            },
            GameState::River => CommunityCards {
                river: River {
                    retrieved_at: if self.river.retrieved_at is Some { self.river.retrieved_at } else { Some(now) },
                    ..self.river
                },
                ..self
            },
        }
    }
}

/// A seated player: identity, hole cards, showdown viewing secret, and one share of each
/// street's secret.
#[derive(Clone, Debug, PartialEq, Eq)]
pub struct Player {
    pub username: String,
    pub player_id: u128,
    pub public_key: String,
    pub hand: Vec<Card>,
    pub hand_secret: u64,
    pub flop_secret_share: u64,
    pub turn_secret_share: u64,
    pub river_secret_share: u64,
}

/// One hand at one table.
#[derive(Clone, Debug, PartialEq, Eq)]
pub struct PokerTable {
    pub game_state: GameState,
    pub hand_ref: u32,
    pub players: Vec<Player>,
    pub community_cards: CommunityCards,
    pub showdown_retrieved_at: Option<u64>,
}

impl PokerTable {
    /// The shape of a dealt hand: three flop cards and two hole cards for each player.
    pub open spec fn wf(self) -> bool {
        &&& self.community_cards.flop.cards@.len() == 3
        &&& forall|i: int| 0 <= i < self.players@.len() ==> (#[trigger] self.players@[i]).hand@.len() == 2
    }
}

} // verus!
