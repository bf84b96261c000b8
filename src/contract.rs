use vstd::prelude::*;

use crate::error::ContractError;
use crate::msg::{StartGamePlayer, StartGameResponse};
use crate::random::{
    additive_secret_sharing, generate_random_number, split_shares, stream_draws, stream_value,
    RandomStream,
};
use crate::state::{
    canonical_deck, lemma_canonical_deck_distinct, lemma_shuffle_keeps_cards,
    shuffle_deck, shuffled, Card, CommunityCards, Deck, Flop, GameState, Player, PokerTable, River,
    Turn,
};

verus! {

/// Fewest players a hand is dealt to.
pub const MIN_PLAYERS: usize = 2;

/// Most players a hand is dealt to.
pub const MAX_PLAYERS: usize = 9;

/// The most draws one hand consumes: the shuffle seed, then for nine players three street
/// secrets with eight drawn shares each, and nine hand secrets.
pub const MAX_DRAWS_PER_HAND: u128 = 37;

/// No two players share a public key.
pub open spec fn keys_distinct(ps: Seq<StartGamePlayer>) -> bool {
    forall|i: int, j: int|
        0 <= i < ps.len() && 0 <= j < ps.len() && i != j ==> ps[i].public_key@ != ps[j].public_key@
}

/// The verdict on a list of players: a count from two to nine, then distinct public keys.
pub open spec fn validation_outcome(ps: Seq<StartGamePlayer>) -> Result<(), ContractError> {
    if ps.len() < MIN_PLAYERS || ps.len() > MAX_PLAYERS {
        Err(ContractError::InvalidPlayerCount { count: ps.len() as usize })
    } else if !keys_distinct(ps) {
        Err(ContractError::DuplicatePublicKeys)
    } else {
        Ok(())
    }
}

/// Checks the player count, then that the public keys are pairwise distinct.
pub fn validate_players(players_info: &Vec<StartGamePlayer>) -> (r: Result<(), ContractError>)
    ensures
        r == validation_outcome(players_info@),
{
    let n = players_info.len();
    if n < MIN_PLAYERS || n > MAX_PLAYERS {
        return Err(ContractError::InvalidPlayerCount { count: n });
    }
    let mut i: usize = 0;
    while i < n
        invariant
            n == players_info@.len(),
            MIN_PLAYERS <= n <= MAX_PLAYERS,
            i <= n,
            forall|a: int, b: int|
                0 <= a < i && 0 <= b < n && a != b ==> players_info@[a].public_key@
                    != players_info@[b].public_key@,
        decreases n - i,
    {
        let mut j: usize = 0;
        while j < n
            invariant
                n == players_info@.len(),
                MIN_PLAYERS <= n <= MAX_PLAYERS,
                i < n,
                j <= n,
                forall|a: int, b: int|
                    0 <= a < i && 0 <= b < n && a != b ==> players_info@[a].public_key@
                        != players_info@[b].public_key@,
                forall|b: int| 0 <= b < j && b != i ==> players_info@[i as int].public_key@
                    != players_info@[b].public_key@,
            decreases n - j,
        {
            if j != i && players_info[i].public_key == players_info[j].public_key {
                assert(!keys_distinct(players_info@));
                return Err(ContractError::DuplicatePublicKeys);
            }
            j = j + 1;
        }
        i = i + 1;
    }
    Ok(())
}

/// The deck a hand is dealt from: the canonical deck shuffled with the draw at `c`.
pub open spec fn dealt_deck(e: Seq<u8>, c: int) -> Seq<Card> {
    shuffled(canonical_deck(), stream_value(e, c as u128))
}

/// The secret of street `k` (0 flop, 1 turn, 2 river) of a hand of `n` players whose draws
/// start at `c`.
pub open spec fn street_secret_drawn(e: Seq<u8>, c: int, n: int, k: int) -> u64 {
    stream_value(e, (c + 1 + k * n) as u128)
}

/// The shares of street `k`'s secret, one per player.
pub open spec fn street_shares_drawn(e: Seq<u8>, c: int, n: int, k: int) -> Seq<u64> {
    split_shares(street_secret_drawn(e, c, n, k), stream_draws(e, c + 2 + k * n, (n - 1) as nat))
}

/// The hand secret of player `i`.
pub open spec fn hand_secret_drawn(e: Seq<u8>, c: int, n: int, i: int) -> u64 {
    stream_value(e, (c + 1 + 3 * n + i) as u128)
}

/// `p` is player `i` of `n` as dealt from the stream of `e` starting at `c`.
pub open spec fn is_dealt_player(p: Player, info: StartGamePlayer, i: int, n: int, e: Seq<u8>, c: int) -> bool {
    &&& p.username@ == info.username@
    &&& p.player_id == info.player_id
    &&& p.public_key@ == info.public_key@
    &&& p.hand@ == dealt_deck(e, c).subrange(2 * i, 2 * i + 2)
    &&& p.hand_secret == hand_secret_drawn(e, c, n, i)
    &&& p.flop_secret_share == street_shares_drawn(e, c, n, 0)[i]
    &&& p.turn_secret_share == street_shares_drawn(e, c, n, 1)[i]
    &&& p.river_secret_share == street_shares_drawn(e, c, n, 2)[i]
}

/// `t` is the hand dealt to `infos` from the stream of `e` starting at position `c`: hole cards
/// first, two per player in order, then flop, turn and river from the same deck.
pub open spec fn is_dealt_table(t: PokerTable, hand_ref: u32, infos: Seq<StartGamePlayer>, e: Seq<u8>, c: int) -> bool {
    let n = infos.len() as int;
    let d = dealt_deck(e, c);
    let cc = t.community_cards;
    &&& t.game_state == GameState::PreFlop
    &&& t.hand_ref == hand_ref
    &&& t.showdown_retrieved_at is None
    &&& t.players@.len() == n
    &&& forall|i: int| 0 <= i < n ==> is_dealt_player(#[trigger] t.players@[i], infos[i], i, n, e, c)
    &&& cc.flop.cards@ == d.subrange(2 * n, 2 * n + 3)
    &&& cc.turn.card == d[2 * n + 3]
    &&& cc.river.card == d[2 * n + 4]
    &&& cc.flop.secret == street_secret_drawn(e, c, n, 0)
    &&& cc.turn.secret == street_secret_drawn(e, c, n, 1)
    &&& cc.river.secret == street_secret_drawn(e, c, n, 2)
    &&& cc.flop.retrieved_at is None
    &&& cc.turn.retrieved_at is None
    &&& cc.river.retrieved_at is None
}

/// The players' hole cards, in seat order.
pub open spec fn hole_cards(ps: Seq<Player>) -> Seq<Card>
    decreases ps.len(),
{
    if ps.len() == 0 {
        Seq::empty()
    } else {
        hole_cards(ps.drop_last()) + ps.last().hand@
    }
}

/// Every card dealt at the table: hole cards, then flop, turn and river.
pub open spec fn dealt_cards(t: PokerTable) -> Seq<Card> {
    hole_cards(t.players@) + t.community_cards.all_cards()
}

proof fn lemma_hole_cards_prefix(ps: Seq<Player>, d: Seq<Card>)
    requires
        2 * ps.len() <= d.len(),
        forall|i: int| 0 <= i < ps.len() ==> (#[trigger] ps[i]).hand@ == d.subrange(2 * i, 2 * i + 2),
    ensures
        hole_cards(ps) == d.subrange(0, 2 * ps.len() as int),
    decreases ps.len(),
{
    if ps.len() > 0 {
        let init = ps.drop_last();
        assert forall|i: int| 0 <= i < init.len() implies (#[trigger] init[i]).hand@ == d.subrange(2 * i, 2 * i + 2) by {
            assert(init[i] == ps[i]);
        }
        lemma_hole_cards_prefix(init, d);
        assert(ps.last() == ps[ps.len() - 1]);
        assert(hole_cards(ps) =~= d.subrange(0, 2 * ps.len() as int));
    }
}

/// A fresh deck shuffled with one draw of the stream.
pub fn initialize_deck(stream: &mut RandomStream) -> (r: Deck)
    requires
        old(stream).position() < u128::MAX,
    ensures
        r.cards@ == dealt_deck(old(stream).seed_bytes(), old(stream).position() as int),
        final(stream).seed_bytes() == old(stream).seed_bytes(),
        final(stream).position() == old(stream).position() + 1,
{
    let mut deck = Deck::new();
    let seed = generate_random_number(stream);
    shuffle_deck(&mut deck, seed);
    deck
}

/// The cards of `cards` from `start`, at most `count` of them.
pub fn collect_cards(cards: &Vec<Card>, start: usize, count: usize) -> (r: Vec<Card>)
    requires
        start <= cards@.len(),
    ensures
        r@ == cards@.subrange(start as int, if start + count <= cards@.len() { start + count } else { cards@.len() as int }),
{
    let mut out: Vec<Card> = Vec::new();
    let mut i: usize = 0;
    while i < count && i < cards.len() - start
        invariant
            start <= cards@.len(),
            i <= count,
            i <= cards@.len() - start,
            out@ == cards@.subrange(start as int, start + i),
        decreases count - i,
    {
        out.push(cards[start + i]);
        i = i + 1;
        assert(out@ =~= cards@.subrange(start as int, start + i));
    }
    out
}

/// Two cards to each player in order, from the front of the deck.
pub fn distribute_player_cards(deck: &Deck, players: &Vec<StartGamePlayer>) -> (r: Vec<Vec<Card>>)
    requires
        2 * players@.len() <= deck.cards@.len(),
    ensures
        r@.len() == players@.len(),
        forall|i: int| 0 <= i < players@.len() ==> (#[trigger] r@[i])@ == deck.cards@.subrange(2 * i, 2 * i + 2),
{
    let total = deck.cards.len();
    let mut hands: Vec<Vec<Card>> = Vec::new();
    let mut i: usize = 0;
    while i < players.len()
        invariant
            2 * players@.len() <= deck.cards@.len(),
            total == deck.cards@.len(),
            i <= players@.len(),
            hands@.len() == i,
            forall|k: int| 0 <= k < i ==> (#[trigger] hands@[k])@ == deck.cards@.subrange(2 * k, 2 * k + 2),
        decreases players@.len() - i,
    {
        let hand = collect_cards(&deck.cards, 2 * i, 2);
        hands.push(hand);
        i = i + 1;
    }
    hands
}

/// Draws each street's secret and splits it into one share per player, then deals flop, turn
/// and river from the deck after the players' hole cards.
pub fn generate_community_cards(stream: &mut RandomStream, deck: &Deck, player_count: usize) -> (r: (CommunityCards, Vec<Vec<u64>>))
    requires
        MIN_PLAYERS <= player_count <= MAX_PLAYERS,
        2 * player_count + 5 <= deck.cards@.len(),
        old(stream).position() + 3 * player_count <= u128::MAX,
    ensures
        ({
            let (cc, shares) = r;
            let n = player_count as int;
            let e = old(stream).seed_bytes();
            let p = old(stream).position() as int;
            let d = deck.cards@;
            &&& cc.flop.cards@ == d.subrange(2 * n, 2 * n + 3)
            &&& cc.turn.card == d[2 * n + 3]
            &&& cc.river.card == d[2 * n + 4]
            &&& cc.flop.secret == stream_value(e, p as u128)
            &&& cc.turn.secret == stream_value(e, (p + n) as u128)
            &&& cc.river.secret == stream_value(e, (p + 2 * n) as u128)
            &&& cc.flop.retrieved_at is None
            &&& cc.turn.retrieved_at is None
            &&& cc.river.retrieved_at is None
            &&& shares@.len() == 3
            &&& forall|k: int| 0 <= k < 3 ==> (#[trigger] shares@[k])@ == split_shares(
                stream_value(e, (p + k * n) as u128),
                stream_draws(e, p + k * n + 1, (n - 1) as nat),
            )
        }),
        final(stream).seed_bytes() == old(stream).seed_bytes(),
        final(stream).position() == old(stream).position() + 3 * player_count,
{
    let ghost e = stream.seed_bytes();
    let ghost p = stream.position() as int;
    let ghost n = player_count as int;
    let mut secrets: Vec<u64> = Vec::new();
    let mut shares: Vec<Vec<u64>> = Vec::new();
    let mut k: usize = 0;
    while k < 3
        invariant
            2 <= n <= 9,
            n == player_count,
            k <= 3,
            stream.seed_bytes() == e,
            stream.position() == p + k * n,
            p + 3 * n <= u128::MAX,
            secrets@.len() == k,
            shares@.len() == k,
            forall|j: int| 0 <= j < k ==> #[trigger] secrets@[j] == stream_value(e, (p + j * n) as u128),
            forall|j: int| 0 <= j < k ==> (#[trigger] shares@[j])@ == split_shares(
                stream_value(e, (p + j * n) as u128),
                stream_draws(e, p + j * n + 1, (n - 1) as nat),
            ),
        decreases 3 - k,
    {
        assert(p + k * n + n <= p + 3 * n) by (nonlinear_arith)
            requires
                k < 3,
                n >= 0,
        ;
        let secret = generate_random_number(stream);
        let street_shares = additive_secret_sharing(stream, player_count, secret);
        secrets.push(secret);
        shares.push(street_shares);
        assert(stream.position() == p + (k + 1) * n) by (nonlinear_arith)
            requires
                stream.position() == p + k * n + 1 + (n - 1),
        ;
        k = k + 1;
    }
    let start = 2 * player_count;
    let flop = Flop { cards: collect_cards(&deck.cards, start, 3), secret: secrets[0], retrieved_at: None };
    let turn = Turn { card: deck.cards[start + 3], secret: secrets[1], retrieved_at: None };
    let river = River { card: deck.cards[start + 4], secret: secrets[2], retrieved_at: None };
    assert(secrets@[1] == stream_value(e, (p + 1 * n) as u128));
    assert(secrets@[2] == stream_value(e, (p + 2 * n) as u128));
    assert(secrets@[0] == stream_value(e, (p + 0 * n) as u128));
    (CommunityCards { flop, turn, river }, shares)
}

/// Seats the players with their hole cards, street shares and a freshly drawn hand secret each.
pub fn create_players(
    players_info: &Vec<StartGamePlayer>,
    player_cards: &Vec<Vec<Card>>,
    secrets: &Vec<Vec<u64>>,
    stream: &mut RandomStream,
) -> (r: Vec<Player>)
    requires
        player_cards@.len() == players_info@.len(),
        secrets@.len() == 3,
        forall|k: int| 0 <= k < 3 ==> (#[trigger] secrets@[k])@.len() == players_info@.len(),
        old(stream).position() + players_info@.len() <= u128::MAX,
    ensures
        r@.len() == players_info@.len(),
        forall|i: int| 0 <= i < players_info@.len() ==> {
            let p = #[trigger] r@[i];
            &&& p.username@ == players_info@[i].username@
            &&& p.player_id == players_info@[i].player_id
            &&& p.public_key@ == players_info@[i].public_key@
            &&& p.hand@ == player_cards@[i]@
            &&& p.hand_secret == stream_value(old(stream).seed_bytes(), (old(stream).position() + i) as u128)
            &&& p.flop_secret_share == secrets@[0]@[i]
            &&& p.turn_secret_share == secrets@[1]@[i]
            &&& p.river_secret_share == secrets@[2]@[i]
        },
        final(stream).seed_bytes() == old(stream).seed_bytes(),
        final(stream).position() == old(stream).position() + players_info@.len(),
{
    let ghost e = stream.seed_bytes();
    let ghost p0 = stream.position() as int;
    let n = players_info.len();
    let mut players: Vec<Player> = Vec::new();
    let mut i: usize = 0;
    while i < n
        invariant
            n == players_info@.len(),
            player_cards@.len() == n,
            secrets@.len() == 3,
            forall|k: int| 0 <= k < 3 ==> (#[trigger] secrets@[k])@.len() == n,
            i <= n,
            stream.seed_bytes() == e,
            stream.position() == p0 + i,
            p0 + n <= u128::MAX,
            players@.len() == i,
            forall|j: int| 0 <= j < i ==> {
                let p = #[trigger] players@[j];
                &&& p.username@ == players_info@[j].username@
                &&& p.player_id == players_info@[j].player_id
                &&& p.public_key@ == players_info@[j].public_key@
                &&& p.hand@ == player_cards@[j]@
                &&& p.hand_secret == stream_value(e, (p0 + j) as u128)
                &&& p.flop_secret_share == secrets@[0]@[j]
                &&& p.turn_secret_share == secrets@[1]@[j]
                &&& p.river_secret_share == secrets@[2]@[j]
            },
        decreases n - i,
    {
        let info = &players_info[i];
        let cards = &player_cards[i];
        let hand = collect_cards(cards, 0, cards.len());
        assert(hand@ =~= player_cards@[i as int]@);
        let hand_secret = generate_random_number(stream);
        let player = Player {
            username: info.username.clone(),
            player_id: info.player_id,
            public_key: info.public_key.clone(),
            hand,
            hand_secret,
            flop_secret_share: secrets[0][i],
            turn_secret_share: secrets[1][i],
            river_secret_share: secrets[2][i],
        };
        players.push(player);
        i = i + 1;
    }
    players
}

/// Starts a hand: validates the players, shuffles a fresh deck with one draw, deals two hole
/// cards to each player, then flop, turn and river; draws and splits each street's secret, then
/// draws each player's hand secret. Nothing is drawn when validation fails.
pub fn handle_start_game(stream: &mut RandomStream, hand_ref: u32, players_info: &Vec<StartGamePlayer>) -> (r: Result<PokerTable, ContractError>)
    requires
        old(stream).position() + MAX_DRAWS_PER_HAND <= u128::MAX,
    ensures
        validation_outcome(players_info@) is Err ==> r == Err::<PokerTable, ContractError>(
            validation_outcome(players_info@)->Err_0,
        ) && *final(stream) == *old(stream),
        validation_outcome(players_info@) is Ok ==> r is Ok,
        r matches Ok(t) ==> {
            let n = players_info@.len() as int;
            &&& is_dealt_table(t, hand_ref, players_info@, old(stream).seed_bytes(), old(stream).position() as int)
            &&& t.wf()
            &&& final(stream).seed_bytes() == old(stream).seed_bytes()
            &&& final(stream).position() == old(stream).position() + 1 + 4 * n
            &&& dealt_cards(t).len() == 2 * n + 5
            &&& dealt_cards(t).no_duplicates()
            &&& forall|k: int| 0 <= k < 2 * n + 5 ==> canonical_deck().contains(#[trigger] dealt_cards(t)[k])
            &&& forall|k: int| 0 <= k < 2 * n + 5 ==> (#[trigger] dealt_cards(t)[k]).is_valid()
        },
{
    match validate_players(players_info) {
        Err(e) => {
            return Err(e);
        },
        Ok(()) => {},
    }
    let ghost e = stream.seed_bytes();
    let ghost c = stream.position() as int;
    let n = players_info.len();
    let deck = initialize_deck(stream);
    proof {
        lemma_canonical_deck_distinct();
        lemma_shuffle_keeps_cards(canonical_deck(), stream_value(e, c as u128), 51);
    }
    let player_cards = distribute_player_cards(&deck, players_info);
    let (community_cards, secrets) = generate_community_cards(stream, &deck, n);
    let players = create_players(players_info, &player_cards, &secrets, stream);
    let table = PokerTable {
        game_state: GameState::PreFlop,
        hand_ref,
        players,
        community_cards,
        showdown_retrieved_at: None,
    };
    proof {
        let d = deck.cards@;
        let ni = n as int;
        assert forall|i: int| 0 <= i < ni implies is_dealt_player(#[trigger] table.players@[i], players_info@[i], i, ni, e, c) by {
            assert(table.players@[i].hand@ == player_cards@[i]@);
            assert(secrets@[0]@ == street_shares_drawn(e, c, ni, 0));
            assert(secrets@[1]@ == street_shares_drawn(e, c, ni, 1));
            assert(secrets@[2]@ == street_shares_drawn(e, c, ni, 2));
        }
        assert(is_dealt_table(table, hand_ref, players_info@, e, c));
        assert forall|i: int| 0 <= i < ni implies (#[trigger] table.players@[i]).hand@ == d.subrange(2 * i, 2 * i + 2) by {
            assert(is_dealt_player(table.players@[i], players_info@[i], i, ni, e, c));
        }
        lemma_hole_cards_prefix(table.players@, d);
        assert(table.wf());
        assert(dealt_cards(table) =~= d.subrange(0, 2 * ni + 5));
        let dc = dealt_cards(table);
        assert forall|a: int, b: int| 0 <= a < dc.len() && 0 <= b < dc.len() && a != b implies dc[a] != dc[b] by {
            assert(dc[a] == d[a] && dc[b] == d[b]);
        }
        assert forall|k: int| 0 <= k < 2 * ni + 5 implies canonical_deck().contains(#[trigger] dc[k]) by {
            assert(d.contains(d[k]));
        }
        assert forall|k: int| 0 <= k < 2 * ni + 5 implies (#[trigger] dc[k]).is_valid() by {
            assert(canonical_deck().contains(dc[k]));
            let j = choose|j: int| 0 <= j < 52 && canonical_deck()[j] == dc[k];
            assert(canonical_deck()[j].is_valid());
        }
    }
    Ok(table)
}

/// The table stored under `table_id`, if the lookup found one.
pub fn load_table_or_error(table: Option<PokerTable>, table_id: u32) -> (r: Result<PokerTable, ContractError>)
    ensures
        table is None ==> r == Err::<PokerTable, ContractError>(ContractError::TableNotFound { table_id }),
        table matches Some(t) ==> r == Ok::<PokerTable, ContractError>(t),
{
    match table {
        Some(t) => Ok(t),
        None => Err(ContractError::TableNotFound { table_id }),
    }
}

/// The public answer to a started hand: the table, the hand, and the players' usernames in
/// seat order.
pub fn create_start_game_response(table_id: u32, hand_ref: u32, players: &Vec<Player>) -> (r: StartGameResponse)
    ensures
        r.table_id == table_id,
        r.hand_ref == hand_ref,
        r.players@.len() == players@.len(),
        forall|i: int| 0 <= i < players@.len() ==> (#[trigger] r.players@[i])@ == players@[i].username@,
{
    let mut names: Vec<String> = Vec::new();
    let mut i: usize = 0;
    while i < players.len()
        invariant
            i <= players@.len(),
            names@.len() == i,
            forall|j: int| 0 <= j < i ==> (#[trigger] names@[j])@ == players@[j].username@,
        decreases players@.len() - i,
    {
        names.push(players[i].username.clone());
        i = i + 1;
    }
    StartGameResponse { table_id, hand_ref, players: names }
}

} // verus!
