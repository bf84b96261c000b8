use sha2::{Digest, Sha256};

use secret_poker::contract::{
    collect_cards, create_start_game_response, handle_start_game, load_table_or_error,
    validate_players,
};
use secret_poker::error::{ContractError, QueryError};
use secret_poker::msg::StartGamePlayer;
use secret_poker::phase::{handle_community_cards, query_community_cards, reveal_street};
use secret_poker::random::{
    additive_secret_sharing, generate_random_number, init_counter, le_bytes_of,
    reconstruct_secret, u128_from_le, u64_from_le, RandomStream,
};
use secret_poker::showdown::{
    create_previous_hand_log, handle_all_in_showdown, handle_showdown, query_showdown,
};
use secret_poker::state::{
    generate_derived_random_index, index_from_digest, shuffle_deck, Card, Deck, GameState,
    PokerTable,
};

fn entropy() -> Vec<u8> {
    (0u8..32).map(|i| i.wrapping_mul(37).wrapping_add(11)).collect()
}

fn stream_at(counter: u128) -> RandomStream {
    RandomStream::new(Some(entropy()), counter).unwrap()
}

fn players(keys: &[&str]) -> Vec<StartGamePlayer> {
    keys.iter()
        .enumerate()
        .map(|(i, k)| StartGamePlayer {
            username: format!("user_{}", k),
            player_id: 1000 + i as u128,
            public_key: k.to_string(),
        })
        .collect()
}

fn table_for(keys: &[&str]) -> PokerTable {
    let mut stream = stream_at(7);
    handle_start_game(&mut stream, 3, &players(keys)).unwrap()
}

fn all_dealt(t: &PokerTable) -> Vec<u8> {
    let mut cards: Vec<u8> = Vec::new();
    for p in &t.players {
        for c in &p.hand {
            cards.push(c.to_bytes());
        }
    }
    for c in &t.community_cards.flop.cards {
        cards.push(c.to_bytes());
    }
    cards.push(t.community_cards.turn.card.to_bytes());
    cards.push(t.community_cards.river.card.to_bytes());
    cards
}

#[test]
fn card_encoding() {
    let c = Card::new(3, 13);
    assert_eq!(c.to_bytes(), 0x3D);
    assert_eq!(c.suit(), 3);
    assert_eq!(c.rank(), 13);
    let d = Card::from_bytes(0x15);
    assert_eq!(d.suit(), 1);
    assert_eq!(d.rank(), 5);
    assert_eq!(d, Card::new(1, 5));
}

#[test]
fn canonical_deck_order_and_bytes() {
    let deck = Deck::new();
    assert_eq!(deck.cards.len(), 52);
    assert_eq!(deck.cards[0], Card::new(0, 1));
    assert_eq!(deck.cards[12], Card::new(0, 13));
    assert_eq!(deck.cards[13], Card::new(1, 1));
    assert_eq!(deck.cards[51], Card::new(3, 13));
    let bytes = deck.to_bytes();
    assert_eq!(bytes[13], 0x11);
    assert_eq!(Deck::from_bytes(&bytes), deck);
    let mut sorted = bytes.clone();
    sorted.sort();
    sorted.dedup();
    assert_eq!(sorted.len(), 52);
}

#[test]
fn shuffle_is_a_deterministic_permutation() {
    let mut a = Deck::new();
    let mut b = Deck::new();
    shuffle_deck(&mut a, 42);
    shuffle_deck(&mut b, 42);
    assert_eq!(a, b);
    assert_ne!(a, Deck::new());
    let mut bytes = a.to_bytes();
    bytes.sort();
    assert_eq!(bytes, Deck::new().to_bytes());
    let mut c = Deck::new();
    shuffle_deck(&mut c, 43);
    assert_ne!(a, c);
}

#[test]
fn shuffle_of_empty_and_single_decks() {
    let mut empty = Deck { cards: vec![] };
    shuffle_deck(&mut empty, 9);
    assert!(empty.cards.is_empty());
    let mut one = Deck { cards: vec![Card::new(2, 7)] };
    shuffle_deck(&mut one, 9);
    assert_eq!(one.cards, vec![Card::new(2, 7)]);
}

#[test]
fn derived_index_follows_sha256() {
    let seed: u64 = 0x0123_4567_89ab_cdef;
    let round: u64 = 51;
    let mut hasher = Sha256::new();
    hasher.update(seed.to_le_bytes());
    hasher.update(round.to_le_bytes());
    let hash = hasher.finalize();
    let mut first = [0u8; 8];
    first.copy_from_slice(&hash[..8]);
    let expected = (u64::from_le_bytes(first) % 52) as usize;
    assert_eq!(generate_derived_random_index(seed, round, 51), expected);
}

#[test]
fn index_from_digest_exact() {
    let digest = [10u8, 0, 0, 0, 0, 0, 0, 0, 99];
    assert_eq!(index_from_digest(&digest, 3), 2);
    let digest = [0xffu8; 8];
    assert_eq!(index_from_digest(&digest, 9), (u64::MAX % 10) as usize);
}

#[test]
fn little_endian_helpers() {
    assert_eq!(le_bytes_of(0x0102, 3), vec![2u8, 1, 0]);
    assert_eq!(le_bytes_of(u128::MAX, 16), vec![0xffu8; 16]);
    assert_eq!(le_bytes_of(7, 0), Vec::<u8>::new());
    let bytes = [1u8, 2, 3, 4, 5, 6, 7, 8, 9];
    assert_eq!(u64_from_le(&bytes), 0x0807_0605_0403_0201);
    let wide: Vec<u8> = (1u8..=16).collect();
    assert_eq!(u128_from_le(&wide), 0x100f_0e0d_0c0b_0a09_0807_0605_0403_0201);
}

#[test]
fn init_counter_reduces_modulo_1000() {
    let mut seed = vec![0u8; 16];
    seed[0] = 0xe8;
    seed[1] = 0x03;
    assert_eq!(init_counter(&Some(seed)), Ok(0));
    let mut seed = vec![0u8; 20];
    seed[0] = 0xe9;
    seed[1] = 0x03;
    assert_eq!(init_counter(&Some(seed)), Ok(1));
    assert_eq!(init_counter(&None), Err(ContractError::EntropyUnavailable));
    assert_eq!(init_counter(&Some(vec![1u8; 15])), Err(ContractError::EntropyUnavailable));
}

#[test]
fn stream_needs_entropy() {
    assert_eq!(
        RandomStream::new(None, 0).err(),
        Some(ContractError::EntropyUnavailable)
    );
}

#[test]
fn draw_follows_hkdf_sha_512() {
    let counter: u128 = 1234;
    let okm = secret_toolkit_crypto::hkdf_sha_512(
        &Some(vec![0u8; 64]),
        &entropy(),
        &counter.to_le_bytes(),
        64,
    )
    .unwrap();
    let mut first = [0u8; 8];
    first.copy_from_slice(&okm[..8]);
    let mut stream = stream_at(counter);
    assert_eq!(generate_random_number(&mut stream), u64::from_le_bytes(first));
    assert_eq!(stream.counter(), counter + 1);
}

#[test]
fn same_entropy_and_counter_draw_the_same_value() {
    let mut a = stream_at(500);
    let mut b = stream_at(500);
    let x = generate_random_number(&mut a);
    let y = generate_random_number(&mut b);
    assert_eq!(x, y);
    let x2 = generate_random_number(&mut a);
    assert_ne!(x, x2);
    assert_eq!(a.counter(), 502);
}

#[test]
fn shares_reconstruct_every_secret() {
    for n in 1usize..=9 {
        for secret in [0u64, 1, 12345, u64::MAX] {
            let mut stream = stream_at(10);
            let shares = additive_secret_sharing(&mut stream, n, secret);
            assert_eq!(shares.len(), n);
            assert_eq!(reconstruct_secret(&shares), secret);
            assert_eq!(stream.counter(), 10 + (n as u128) - 1);
        }
    }
}

#[test]
fn single_share_is_the_secret() {
    let mut stream = stream_at(3);
    assert_eq!(additive_secret_sharing(&mut stream, 1, 77), vec![77u64]);
    assert_eq!(stream.counter(), 3);
}

#[test]
fn reconstruct_wraps() {
    assert_eq!(reconstruct_secret(&vec![u64::MAX, 2]), 1);
    assert_eq!(reconstruct_secret(&vec![]), 0);
}

#[test]
fn start_hand_deals_distinct_cards_for_every_count() {
    let keys = ["a", "b", "c", "d", "e", "f", "g", "h", "i"];
    for n in 2..=9 {
        let mut stream = stream_at(100);
        let t = handle_start_game(&mut stream, 1, &players(&keys[..n])).unwrap();
        assert_eq!(t.players.len(), n);
        for p in &t.players {
            assert_eq!(p.hand.len(), 2);
        }
        assert_eq!(t.community_cards.flop.cards.len(), 3);
        let mut dealt = all_dealt(&t);
        assert_eq!(dealt.len(), 2 * n + 5);
        let canonical = Deck::new().to_bytes();
        assert!(dealt.iter().all(|c| canonical.contains(c)));
        dealt.sort();
        dealt.dedup();
        assert_eq!(dealt.len(), 2 * n + 5);
        assert_eq!(stream.counter(), 100 + 1 + 4 * n as u128);
        assert_eq!(t.game_state, GameState::PreFlop);
    }
}

#[test]
fn start_hand_deals_from_the_shuffled_deck_in_order() {
    let mut stream = stream_at(20);
    let t = handle_start_game(&mut stream, 1, &players(&["x", "y"])).unwrap();
    let mut seed_stream = stream_at(20);
    let seed = generate_random_number(&mut seed_stream);
    let mut deck = Deck::new();
    shuffle_deck(&mut deck, seed);
    assert_eq!(t.players[0].hand, deck.cards[0..2].to_vec());
    assert_eq!(t.players[1].hand, deck.cards[2..4].to_vec());
    assert_eq!(t.community_cards.flop.cards, deck.cards[4..7].to_vec());
    assert_eq!(t.community_cards.turn.card, deck.cards[7]);
    assert_eq!(t.community_cards.river.card, deck.cards[8]);
    let flop_secret = generate_random_number(&mut seed_stream);
    assert_eq!(t.community_cards.flop.secret, flop_secret);
    let shares = [t.players[0].flop_secret_share, t.players[1].flop_secret_share];
    assert_eq!(reconstruct_secret(&shares.to_vec()), flop_secret);
    let turn_shares = vec![t.players[0].turn_secret_share, t.players[1].turn_secret_share];
    assert_eq!(reconstruct_secret(&turn_shares), t.community_cards.turn.secret);
    let river_shares = vec![t.players[0].river_secret_share, t.players[1].river_secret_share];
    assert_eq!(reconstruct_secret(&river_shares), t.community_cards.river.secret);
}

#[test]
fn start_hand_rejects_bad_player_lists() {
    let keys = ["a", "b", "c", "d", "e", "f", "g", "h", "i", "j"];
    for n in [0usize, 1, 10] {
        let mut stream = stream_at(5);
        assert_eq!(
            handle_start_game(&mut stream, 1, &players(&keys[..n])),
            Err(ContractError::InvalidPlayerCount { count: n })
        );
        assert_eq!(stream.counter(), 5);
    }
    let mut stream = stream_at(5);
    assert_eq!(
        handle_start_game(&mut stream, 1, &players(&["a", "b", "a"])),
        Err(ContractError::DuplicatePublicKeys)
    );
    assert_eq!(stream.counter(), 5);
    assert_eq!(validate_players(&players(&["a", "b"])), Ok(()));
}

#[test]
fn reveal_needs_the_street_secret_and_is_idempotent() {
    let mut t = table_for(&["a", "b", "c"]);
    let flop = t.community_cards.flop.cards.clone();
    let key = t.community_cards.flop.secret;
    let wrong = key.wrapping_add(1);
    let before = t.clone();
    assert_eq!(
        reveal_street(&mut t, 4, GameState::Flop, wrong, 100),
        Err(QueryError::InvalidViewingKey { key: wrong })
    );
    assert_eq!(t, before);
    let first = reveal_street(&mut t, 4, GameState::Flop, key, 100).unwrap();
    assert_eq!(first.community_cards, flop);
    assert_eq!(first.table_id, 4);
    assert_eq!(t.community_cards.flop.retrieved_at, Some(100));
    let second = reveal_street(&mut t, 4, GameState::Flop, key, 200).unwrap();
    assert_eq!(second, first);
    assert_eq!(t.community_cards.flop.retrieved_at, Some(100));
    assert_eq!(
        reveal_street(&mut t, 4, GameState::PreFlop, key, 300),
        Err(QueryError::InvalidGameState { game_state: GameState::PreFlop })
    );
    let river_key = t.community_cards.river.secret;
    let river = query_community_cards(&t, 4, GameState::River, river_key).unwrap();
    assert_eq!(river.community_cards, vec![t.community_cards.river.card]);
}

#[test]
fn advance_only_to_the_next_phase() {
    let mut t = table_for(&["a", "b"]);
    let before = t.clone();
    assert_eq!(
        handle_community_cards(&mut t, 1, GameState::River, 10),
        Err(ContractError::GameStateError {
            table_id: 1,
            needed: Some(GameState::Flop),
            actual: GameState::River,
        })
    );
    assert_eq!(t, before);
    let flop = handle_community_cards(&mut t, 1, GameState::Flop, 10).unwrap();
    assert_eq!(flop.community_cards, before.community_cards.flop.cards);
    assert_eq!(t.game_state, GameState::Flop);
    assert_eq!(t.community_cards.flop.retrieved_at, Some(10));
    assert_eq!(
        handle_community_cards(&mut t, 1, GameState::Flop, 11),
        Err(ContractError::GameStateError {
            table_id: 1,
            needed: Some(GameState::Turn),
            actual: GameState::Flop,
        })
    );
    let turn = handle_community_cards(&mut t, 1, GameState::Turn, 12).unwrap();
    assert_eq!(turn.community_cards, vec![before.community_cards.turn.card]);
    let river = handle_community_cards(&mut t, 1, GameState::River, 13).unwrap();
    assert_eq!(river.community_cards, vec![before.community_cards.river.card]);
    assert_eq!(
        handle_community_cards(&mut t, 1, GameState::PreFlop, 14),
        Err(ContractError::GameStateError { table_id: 1, needed: None, actual: GameState::PreFlop })
    );
}

#[test]
fn showdown_with_one_player_secret() {
    let mut t = table_for(&["A", "B"]);
    let b_secret = t.players[1].hand_secret;
    let b_hand = t.players[1].hand.clone();
    let res = query_showdown(&mut t, 1, None, None, None, &vec![b_secret], 50).unwrap();
    assert_eq!(res.players_cards, vec![("B".to_string(), b_hand)]);
    assert!(res.players_cards.iter().all(|(k, _)| k != "A"));
    assert_eq!(res.community_cards, Some(vec![]));
    assert_eq!(t.showdown_retrieved_at, Some(50));
}

#[test]
fn showdown_rejects_wrong_keys_and_unknown_secrets() {
    let mut t = table_for(&["A", "B"]);
    let before = t.clone();
    let bad = t.community_cards.turn.secret.wrapping_add(1);
    let flop_key = t.community_cards.flop.secret;
    assert_eq!(
        query_showdown(&mut t, 1, Some(flop_key), Some(bad), None, &vec![], 5),
        Err(QueryError::InvalidViewingKey { key: bad })
    );
    let secrets = vec![t.players[0].hand_secret, 0x5555, 0x6666];
    assert_eq!(
        query_showdown(&mut t, 1, None, None, None, &secrets, 5),
        Err(QueryError::SecretNotFound { val: 0x5555 })
    );
    assert_eq!(t, before);
    let res = query_showdown(&mut t, 1, Some(flop_key), None, None, &vec![], 5).unwrap();
    assert_eq!(res.community_cards, Some(before.community_cards.flop.cards.clone()));
    assert_eq!(t.community_cards.flop.retrieved_at, Some(5));
    assert_eq!(t.community_cards.turn.retrieved_at, None);
}

#[test]
fn all_in_at_preflop_returns_every_street() {
    let mut t = table_for(&["A", "B", "C"]);
    let cc = t.community_cards.clone();
    let res = handle_showdown(&mut t, 2, &vec!["C".to_string(), "A".to_string()], 77).unwrap();
    let mut expected = cc.flop.cards.clone();
    expected.push(cc.turn.card);
    expected.push(cc.river.card);
    assert_eq!(res.community_cards, Some(expected.clone()));
    assert_eq!(expected.len(), 5);
    assert_eq!(res.players_cards[0], ("C".to_string(), t.players[2].hand.clone()));
    assert_eq!(res.players_cards[1], ("A".to_string(), t.players[0].hand.clone()));
    assert_eq!(t.showdown_retrieved_at, Some(77));
    handle_showdown(&mut t, 2, &vec![], 99).unwrap();
    assert_eq!(t.showdown_retrieved_at, Some(99));
}

#[test]
fn all_in_after_each_phase() {
    let t = table_for(&["A", "B"]);
    let cc = &t.community_cards;
    assert_eq!(
        handle_all_in_showdown(cc, GameState::Flop),
        Some(vec![cc.turn.card, cc.river.card])
    );
    assert_eq!(handle_all_in_showdown(cc, GameState::Turn), Some(vec![cc.river.card]));
    assert_eq!(handle_all_in_showdown(cc, GameState::River), None);
}

#[test]
fn all_in_unknown_player_fails() {
    let mut t = table_for(&["A", "B"]);
    let before = t.clone();
    assert_eq!(
        handle_showdown(&mut t, 2, &vec!["A".to_string(), "Z".to_string()], 1),
        Err(ContractError::PlayerNotFound { table_id: 2, player: "Z".to_string() })
    );
    assert_eq!(t, before);
}

#[test]
fn previous_hand_log_lists_shown_players() {
    let t = table_for(&["A", "B"]);
    let log = create_previous_hand_log(&t, 1, &vec![1001]).unwrap();
    assert_eq!(log.showdown_players.len(), 1);
    assert_eq!(log.showdown_players[0].username, "user_B");
    assert_eq!(log.showdown_players[0].hand, t.players[1].hand);
    assert_eq!(log.community_cards.len(), 5);
    assert_eq!(log.flop_retrieved_at, None);
    assert_eq!(
        create_previous_hand_log(&t, 1, &vec![1000, 42]),
        Err(ContractError::UnknownPlayerId { table_id: 1, player_id: 42 })
    );
}

#[test]
fn table_lookup_and_start_response() {
    assert_eq!(load_table_or_error(None, 8), Err(ContractError::TableNotFound { table_id: 8 }));
    let t = table_for(&["A", "B"]);
    assert_eq!(load_table_or_error(Some(t.clone()), 8), Ok(t.clone()));
    let r = create_start_game_response(8, 3, &t.players);
    assert_eq!(r.players, vec!["user_A".to_string(), "user_B".to_string()]);
}

#[test]
fn collect_cards_stops_at_the_end() {
    let cards = vec![Card::new(0, 1), Card::new(0, 2), Card::new(0, 3)];
    assert_eq!(collect_cards(&cards, 1, 5), vec![Card::new(0, 2), Card::new(0, 3)]);
    assert_eq!(collect_cards(&cards, 3, 2), vec![]);
    assert_eq!(collect_cards(&cards, 0, 2), vec![Card::new(0, 1), Card::new(0, 2)]);
}
