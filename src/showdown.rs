use vstd::prelude::*;

use crate::contract::collect_cards;
use crate::error::{ContractError, QueryError};
use crate::msg::{LastHandLogResponse, PlayerDataResponse, ShowdownPlayer, ShowdownResponse};
use crate::phase::mark_street;
use crate::state::{Card, CommunityCards, GameState, Player, PokerTable};

verus! {

/// Seat `i` is the first whose player has public key `key`.
pub open spec fn is_first_key_seat(ps: Seq<Player>, key: Seq<char>, i: int) -> bool {
    &&& 0 <= i < ps.len()
    &&& ps[i].public_key@ == key
    &&& forall|j: int| 0 <= j < i ==> ps[j].public_key@ != key
}

/// The first seat whose player has public key `key`, if any.
pub open spec fn seat_of_key(ps: Seq<Player>, key: Seq<char>) -> Option<int> {
    if exists|i: int| is_first_key_seat(ps, key, i) {
        Some(choose|i: int| is_first_key_seat(ps, key, i))
    } else {
        None
    }
}

/// Seat `i` is the first whose player holds hand secret `secret`.
pub open spec fn is_first_secret_seat(ps: Seq<Player>, secret: u64, i: int) -> bool {
    &&& 0 <= i < ps.len()
    &&& ps[i].hand_secret == secret
    &&& forall|j: int| 0 <= j < i ==> ps[j].hand_secret != secret
}

/// The first seat whose player holds hand secret `secret`, if any.
pub open spec fn seat_of_secret(ps: Seq<Player>, secret: u64) -> Option<int> {
    if exists|i: int| is_first_secret_seat(ps, secret, i) {
        Some(choose|i: int| is_first_secret_seat(ps, secret, i))
    } else {
        None
    }
}

/// Seat `i` is the first whose player has identifier `id`.
pub open spec fn is_first_id_seat(ps: Seq<Player>, id: u128, i: int) -> bool {
    &&& 0 <= i < ps.len()
    &&& ps[i].player_id == id
    &&& forall|j: int| 0 <= j < i ==> ps[j].player_id != id
}

/// The first seat whose player has identifier `id`, if any.
pub open spec fn seat_of_id(ps: Seq<Player>, id: u128) -> Option<int> {
    if exists|i: int| is_first_id_seat(ps, id, i) {
        Some(choose|i: int| is_first_id_seat(ps, id, i))
    } else {
        None
    }
}

/// The first seat whose player has public key `key`.
pub fn find_seat_by_key(players: &Vec<Player>, key: &String) -> (r: Option<usize>)
    ensures
        r matches Some(i) ==> seat_of_key(players@, key@) == Some(i as int),
        r is None ==> seat_of_key(players@, key@) is None,
{
    let mut i: usize = 0;
    while i < players.len()
        invariant
            i <= players@.len(),
            forall|j: int| 0 <= j < i ==> players@[j].public_key@ != key@,
        decreases players@.len() - i,
    {
        if players[i].public_key == *key {
            assert(is_first_key_seat(players@, key@, i as int));
            let ghost k = choose|k: int| is_first_key_seat(players@, key@, k);
            assert(k == i) by {
                if k < i {
                    assert(players@[k].public_key@ != key@);
                } else if k > i {
                    assert(players@[i as int].public_key@ != key@);
                }
            }
            return Some(i);
        }
        i = i + 1;
    }
    None
}

/// The first seat whose player holds hand secret `secret`.
pub fn find_seat_by_secret(players: &Vec<Player>, secret: u64) -> (r: Option<usize>)
    ensures
        r matches Some(i) ==> seat_of_secret(players@, secret) == Some(i as int),
        r is None ==> seat_of_secret(players@, secret) is None,
{
    let mut i: usize = 0;
    while i < players.len()
        invariant
            i <= players@.len(),
            forall|j: int| 0 <= j < i ==> players@[j].hand_secret != secret,
        decreases players@.len() - i,
    {
        if players[i].hand_secret == secret {
            assert(is_first_secret_seat(players@, secret, i as int));
            let ghost k = choose|k: int| is_first_secret_seat(players@, secret, k);
            assert(k == i) by {
                if k < i {
                    assert(players@[k].hand_secret != secret);
                } else if k > i {
                    assert(players@[i as int].hand_secret != secret);
                }
            }
            return Some(i);
        }
        i = i + 1;
    }
    None
}

/// The first seat whose player has identifier `id`.
pub fn find_seat_by_id(players: &Vec<Player>, id: u128) -> (r: Option<usize>)
    ensures
        r matches Some(i) ==> seat_of_id(players@, id) == Some(i as int),
        r is None ==> seat_of_id(players@, id) is None,
{
    let mut i: usize = 0;
    while i < players.len()
        invariant
            i <= players@.len(),
            forall|j: int| 0 <= j < i ==> players@[j].player_id != id,
        decreases players@.len() - i,
    {
        if players[i].player_id == id {
            assert(is_first_id_seat(players@, id, i as int));
            let ghost k = choose|k: int| is_first_id_seat(players@, id, k);
            assert(k == i) by {
                if k < i {
                    assert(players@[k].player_id != id);
                } else if k > i {
                    assert(players@[i as int].player_id != id);
                }
            }
            return Some(i);
        }
        i = i + 1;
    }
    None
}

/// The cards of an optional list of cards.
pub open spec fn opt_cards(o: Option<Vec<Card>>) -> Option<Seq<Card>> {
    match o {
        Some(v) => Some(v@),
        None => None,
    }
}

/// `entry` shows player `p`'s hole cards under `p`'s public key.
pub open spec fn shows_player(entry: (String, Vec<Card>), p: Player) -> bool {
    entry.0@ == p.public_key@ && entry.1@ == p.hand@
}

/// All-in showdown: every community card group the table's phase has not reached yet.
pub fn handle_all_in_showdown(community_cards: &CommunityCards, game_state: GameState) -> (r: Option<Vec<Card>>)
    ensures
        opt_cards(r) == community_cards.remaining_after(game_state),
{
    match game_state {
        GameState::PreFlop => {
            let mut cards = collect_cards(&community_cards.flop.cards, 0, community_cards.flop.cards.len());
            cards.push(community_cards.turn.card);
            cards.push(community_cards.river.card);
            assert(cards@ =~= community_cards.all_cards());
            Some(cards)
        },
        GameState::Flop => Some(vec![community_cards.turn.card, community_cards.river.card]),
        GameState::Turn => Some(vec![community_cards.river.card]),
        GameState::River => None,
    }
}

/// The all-in showdown: the hands of the players named by public key in `show_cards`, in that
/// order, and the community cards the table's phase has not reached; records `now` as the
/// showdown time. An unknown key fails, naming the first such key, and leaves the table as it was.
pub fn handle_showdown(table: &mut PokerTable, table_id: u32, show_cards: &Vec<String>, now: u64) -> (r: Result<ShowdownResponse, ContractError>)
    ensures
        r is Ok <==> forall|k: int| 0 <= k < show_cards@.len() ==> #[trigger] seat_of_key(old(table).players@, show_cards@[k]@) is Some,
        r matches Err(e) ==> *final(table) == *old(table) && exists|k: int| {
            &&& 0 <= k < show_cards@.len()
            &&& seat_of_key(old(table).players@, show_cards@[k]@) is None
            &&& forall|j: int| 0 <= j < k ==> #[trigger] seat_of_key(old(table).players@, show_cards@[j]@) is Some
            &&& e == ContractError::PlayerNotFound { table_id, player: show_cards@[k] }
        },
        r matches Ok(resp) ==> {
            &&& resp.table_id == table_id
            &&& resp.hand_ref == old(table).hand_ref
            &&& resp.players_cards@.len() == show_cards@.len()
            &&& forall|k: int| 0 <= k < show_cards@.len() ==> shows_player(
                #[trigger] resp.players_cards@[k],
                old(table).players@[seat_of_key(old(table).players@, show_cards@[k]@)->Some_0],
            )
            &&& opt_cards(resp.community_cards) == old(table).community_cards.remaining_after(old(table).game_state)
            &&& *final(table) == PokerTable {
                showdown_retrieved_at: Some(now),
                ..*old(table)
            }
        },
        old(table).wf() ==> final(table).wf(),
        old(table).wf() && old(table).game_state == GameState::PreFlop ==> (r matches Ok(resp) ==> resp.community_cards matches Some(v) && v@.len() == 5),
{
    let mut player_hands: Vec<(String, Vec<Card>)> = Vec::new();
    let mut k: usize = 0;
    while k < show_cards.len()
        invariant
            k <= show_cards@.len(),
            player_hands@.len() == k,
            forall|j: int| 0 <= j < k ==> #[trigger] seat_of_key(table.players@, show_cards@[j]@) is Some,
            forall|j: int| 0 <= j < k ==> shows_player(
                #[trigger] player_hands@[j],
                table.players@[seat_of_key(table.players@, show_cards@[j]@)->Some_0],
            ),
        decreases show_cards@.len() - k,
    {
        match find_seat_by_key(&table.players, &show_cards[k]) {
            Some(i) => {
                let p = &table.players[i];
                player_hands.push((p.public_key.clone(), collect_cards(&p.hand, 0, p.hand.len())));
                assert(p.hand@.subrange(0, p.hand@.len() as int) =~= p.hand@);
            },
            None => {
                return Err(ContractError::PlayerNotFound { table_id, player: show_cards[k].clone() });
            },
        }
        k = k + 1;
    }
    let community_cards = handle_all_in_showdown(&table.community_cards, table.game_state);
    table.showdown_retrieved_at = Some(now);
    Ok(ShowdownResponse { table_id, hand_ref: table.hand_ref, players_cards: player_hands, community_cards })
}

/// A supplied street key that is not the street's secret.
pub open spec fn key_mismatch(cc: CommunityCards, game_state: GameState, key: Option<u64>) -> bool {
    key is Some && key->Some_0 != cc.street_secret(game_state)
}

/// The first wrong street key among those supplied, checked flop, turn, river.
pub open spec fn street_key_error(cc: CommunityCards, flop: Option<u64>, turn: Option<u64>, river: Option<u64>) -> Option<QueryError> {
    if key_mismatch(cc, GameState::Flop, flop) {
        Some(QueryError::InvalidViewingKey { key: flop->Some_0 })
    } else if key_mismatch(cc, GameState::Turn, turn) {
        Some(QueryError::InvalidViewingKey { key: turn->Some_0 })
    } else if key_mismatch(cc, GameState::River, river) {
        Some(QueryError::InvalidViewingKey { key: river->Some_0 })
    } else {
        None
    }
}

/// The cards of the streets whose keys were supplied, flop first.
pub open spec fn shown_streets(cc: CommunityCards, flop: Option<u64>, turn: Option<u64>, river: Option<u64>) -> Seq<Card> {
    (if flop is Some { cc.street_cards(GameState::Flop) } else { Seq::empty() })
        + (if turn is Some { cc.street_cards(GameState::Turn) } else { Seq::empty() })
        + (if river is Some { cc.street_cards(GameState::River) } else { Seq::empty() })
}

/// The community cards with each street whose key was supplied marked as disclosed at `now`.
pub open spec fn mark_shown(cc: CommunityCards, flop: Option<u64>, turn: Option<u64>, river: Option<u64>, now: u64) -> CommunityCards {
    let c1 = if flop is Some { cc.marked(GameState::Flop, now) } else { cc };
    let c2 = if turn is Some { c1.marked(GameState::Turn, now) } else { c1 };
    if river is Some { c2.marked(GameState::River, now) } else { c2 }
}

/// Showdown with keys: each supplied street key must be that street's secret, and each player
/// secret must be some player's hand secret. Returns the streets unlocked and the hands, in the
/// order of the secrets, under each player's public key; records the first disclosure time of
/// each unlocked street and `now` as the showdown time.
/// A failure leaves the table as it was.
pub fn query_showdown(
    table: &mut PokerTable,
    table_id: u32,
    flop_secret: Option<u64>,
    turn_secret: Option<u64>,
    river_secret: Option<u64>,
    players_secrets: &Vec<u64>,
    now: u64,
) -> (r: Result<ShowdownResponse, QueryError>)
    ensures
        ({
            let cc = old(table).community_cards;
            let ps = old(table).players@;
            let key_error = street_key_error(cc, flop_secret, turn_secret, river_secret);
            &&& r is Ok <==> key_error is None && forall|k: int| 0 <= k < players_secrets@.len() ==> #[trigger] seat_of_secret(ps, players_secrets@[k]) is Some
            &&& key_error matches Some(e) ==> r == Err::<ShowdownResponse, QueryError>(e)
            &&& r matches Err(e) ==> *final(table) == *old(table) && (key_error is None ==> exists|k: int| {
                &&& 0 <= k < players_secrets@.len()
                &&& seat_of_secret(ps, players_secrets@[k]) is None
                &&& forall|j: int| 0 <= j < k ==> #[trigger] seat_of_secret(ps, players_secrets@[j]) is Some
                &&& e == QueryError::SecretNotFound { val: players_secrets@[k] }
            })
            &&& r matches Ok(resp) ==> {
                &&& resp.table_id == table_id
                &&& resp.hand_ref == old(table).hand_ref
                &&& resp.players_cards@.len() == players_secrets@.len()
                &&& forall|k: int| 0 <= k < players_secrets@.len() ==> shows_player(
                    #[trigger] resp.players_cards@[k],
                    ps[seat_of_secret(ps, players_secrets@[k])->Some_0],
                )
                &&& opt_cards(resp.community_cards) == Some(shown_streets(cc, flop_secret, turn_secret, river_secret))
                &&& *final(table) == PokerTable {
                    community_cards: mark_shown(cc, flop_secret, turn_secret, river_secret, now),
                    showdown_retrieved_at: Some(now),
                    ..*old(table)
                }
            }
        }),
        old(table).wf() ==> final(table).wf(),
{
    let mut community_cards: Vec<Card> = Vec::new();
    if let Some(secret) = flop_secret {
        if table.community_cards.flop.secret != secret {
            return Err(QueryError::InvalidViewingKey { key: secret });
        }
        community_cards = collect_cards(&table.community_cards.flop.cards, 0, table.community_cards.flop.cards.len());
        assert(table.community_cards.flop.cards@.subrange(0, table.community_cards.flop.cards@.len() as int)
            =~= table.community_cards.flop.cards@);
    }
    if let Some(secret) = turn_secret {
        if table.community_cards.turn.secret != secret {
            return Err(QueryError::InvalidViewingKey { key: secret });
        }
        community_cards.push(table.community_cards.turn.card);
    }
    if let Some(secret) = river_secret {
        if table.community_cards.river.secret != secret {
            return Err(QueryError::InvalidViewingKey { key: secret });
        }
        community_cards.push(table.community_cards.river.card);
    }
    assert(community_cards@ =~= shown_streets(table.community_cards, flop_secret, turn_secret, river_secret));
    assert(street_key_error(table.community_cards, flop_secret, turn_secret, river_secret) is None);
    let mut players_cards: Vec<(String, Vec<Card>)> = Vec::new();
    let mut k: usize = 0;
    while k < players_secrets.len()
        invariant
            *table == *old(table),
            street_key_error(table.community_cards, flop_secret, turn_secret, river_secret) is None,
            community_cards@ == shown_streets(table.community_cards, flop_secret, turn_secret, river_secret),
            k <= players_secrets@.len(),
            players_cards@.len() == k,
            forall|j: int| 0 <= j < k ==> #[trigger] seat_of_secret(table.players@, players_secrets@[j]) is Some,
            forall|j: int| 0 <= j < k ==> shows_player(
                #[trigger] players_cards@[j],
                table.players@[seat_of_secret(table.players@, players_secrets@[j])->Some_0],
            ),
        decreases players_secrets@.len() - k,
    {
        match find_seat_by_secret(&table.players, players_secrets[k]) {
            Some(i) => {
                let p = &table.players[i];
                players_cards.push((p.public_key.clone(), collect_cards(&p.hand, 0, p.hand.len())));
                assert(p.hand@.subrange(0, p.hand@.len() as int) =~= p.hand@);
            },
            None => {
                assert(seat_of_secret(table.players@, players_secrets@[k as int]) is None);
                return Err(QueryError::SecretNotFound { val: players_secrets[k] });
            },
        }
        k = k + 1;
    }
    if flop_secret.is_some() {
        mark_street(&mut table.community_cards, GameState::Flop, now);
    }
    if turn_secret.is_some() {
        mark_street(&mut table.community_cards, GameState::Turn, now);
    }
    if river_secret.is_some() {
        mark_street(&mut table.community_cards, GameState::River, now);
    }
    table.showdown_retrieved_at = Some(now);
    Ok(ShowdownResponse {
        table_id,
        hand_ref: table.hand_ref,
        players_cards,
        community_cards: Some(community_cards),
    })
}

/// A player's own seat, found by public key: hole cards, hand secret and street shares.
pub fn query_player_private_data(table: &PokerTable, table_id: u32, pub_key: &String) -> (r: Result<PlayerDataResponse, QueryError>)
    ensures
        seat_of_key(table.players@, pub_key@) is None <==> r == Err::<PlayerDataResponse, QueryError>(
            QueryError::PlayerNotFound { table_id, player: *pub_key },
        ),
        seat_of_key(table.players@, pub_key@) is Some ==> r is Ok,
        r matches Ok(d) ==> {
            let p = table.players@[seat_of_key(table.players@, pub_key@)->Some_0];
            &&& seat_of_key(table.players@, pub_key@) is Some
            &&& d.table_id == table_id
            &&& d.hand_ref == table.hand_ref
            &&& d.hand@ == p.hand@
            &&& d.hand_seed == p.hand_secret
            &&& d.flop_secret == p.flop_secret_share
            &&& d.turn_secret == p.turn_secret_share
            &&& d.river_secret == p.river_secret_share
        },
{
    match find_seat_by_key(&table.players, pub_key) {
        Some(i) => {
            let p = &table.players[i];
            assert(p.hand@.subrange(0, p.hand@.len() as int) =~= p.hand@);
            Ok(PlayerDataResponse {
                table_id,
                hand_ref: table.hand_ref,
                hand: collect_cards(&p.hand, 0, p.hand.len()),
                hand_seed: p.hand_secret,
                flop_secret: p.flop_secret_share,
                turn_secret: p.turn_secret_share,
                river_secret: p.river_secret_share,
            })
        },
        None => Err(QueryError::PlayerNotFound { table_id, player: pub_key.clone() }),
    }
}

/// The record of the hand at a table before a new one replaces it: the hands of the players
/// named by identifier, in that order, all community cards, and the disclosure times. An unknown
/// identifier fails, naming the first such one.
pub fn create_previous_hand_log(table: &PokerTable, table_id: u32, showdown_player_ids: &Vec<u128>) -> (r: Result<LastHandLogResponse, ContractError>)
    ensures
        r is Ok <==> forall|k: int| 0 <= k < showdown_player_ids@.len() ==> #[trigger] seat_of_id(table.players@, showdown_player_ids@[k]) is Some,
        r matches Err(e) ==> exists|k: int| {
            &&& 0 <= k < showdown_player_ids@.len()
            &&& seat_of_id(table.players@, showdown_player_ids@[k]) is None
            &&& forall|j: int| 0 <= j < k ==> #[trigger] seat_of_id(table.players@, showdown_player_ids@[j]) is Some
            &&& e == ContractError::UnknownPlayerId { table_id, player_id: showdown_player_ids@[k] }
        },
        r matches Ok(log) ==> {
            &&& log.showdown_players@.len() == showdown_player_ids@.len()
            &&& forall|k: int| 0 <= k < showdown_player_ids@.len() ==> {
                let p = table.players@[seat_of_id(table.players@, showdown_player_ids@[k])->Some_0];
                &&& (#[trigger] log.showdown_players@[k]).username@ == p.username@
                &&& log.showdown_players@[k].hand@ == p.hand@
            }
            &&& log.community_cards@ == table.community_cards.all_cards()
            &&& log.flop_retrieved_at == table.community_cards.flop.retrieved_at
            &&& log.turn_retrieved_at == table.community_cards.turn.retrieved_at
            &&& log.river_retrieved_at == table.community_cards.river.retrieved_at
            &&& log.showdown_retrieved_at == table.showdown_retrieved_at
        },
{
    let mut showdown_players: Vec<ShowdownPlayer> = Vec::new();
    let mut k: usize = 0;
    while k < showdown_player_ids.len()
        invariant
            k <= showdown_player_ids@.len(),
            showdown_players@.len() == k,
            forall|j: int| 0 <= j < k ==> #[trigger] seat_of_id(table.players@, showdown_player_ids@[j]) is Some,
            forall|j: int| 0 <= j < k ==> {
                let p = table.players@[seat_of_id(table.players@, showdown_player_ids@[j])->Some_0];
                &&& (#[trigger] showdown_players@[j]).username@ == p.username@
                &&& showdown_players@[j].hand@ == p.hand@
            },
        decreases showdown_player_ids@.len() - k,
    {
        match find_seat_by_id(&table.players, showdown_player_ids[k]) {
            Some(i) => {
                let p = &table.players[i];
                assert(p.hand@.subrange(0, p.hand@.len() as int) =~= p.hand@);
                showdown_players.push(ShowdownPlayer {
                    username: p.username.clone(),
                    hand: collect_cards(&p.hand, 0, p.hand.len()),
                });
            },
            None => {
                return Err(ContractError::UnknownPlayerId { table_id, player_id: showdown_player_ids[k] });
            },
        }
        k = k + 1;
    }
    let cc = &table.community_cards;
    let mut community_cards = collect_cards(&cc.flop.cards, 0, cc.flop.cards.len());
    community_cards.push(cc.turn.card);
    community_cards.push(cc.river.card);
    assert(community_cards@ =~= cc.all_cards());
    Ok(LastHandLogResponse {
        showdown_players,
        community_cards,
        flop_retrieved_at: cc.flop.retrieved_at,
        turn_retrieved_at: cc.turn.retrieved_at,
        river_retrieved_at: cc.river.retrieved_at,
        showdown_retrieved_at: table.showdown_retrieved_at,
    })
}

} // verus!
