use std::str::FromStr;

use secret_cosmwasm_std::testing::mock_env;
use secret_poker::contract::{create_start_game_response, handle_start_game};
use secret_poker::error::QueryError;
use secret_poker::msg::StartGamePlayer;
use secret_poker::phase::{handle_community_cards, query_community_cards};
use secret_poker::random::{
    additive_secret_sharing, generate_random_number, init_counter, reconstruct_secret,
    RandomStream,
};
use secret_poker::showdown::{query_player_private_data, query_showdown};
use secret_poker::state::{GameState, PokerTable};
use uuid::Uuid;

fn mock_entropy() -> Option<Vec<u8>> {
    mock_env().block.random.map(|b| b.to_vec())
}

fn now() -> u64 {
    mock_env().block.time.nanos()
}

fn two_players() -> Vec<StartGamePlayer> {
    vec![
        StartGamePlayer {
            username: "player1".to_string(),
            player_id: Uuid::from_str("54d8f23e-3e5e-4462-910c-fb36079f6c31").unwrap().as_u128(),
            public_key: "public_key1".to_string(),
        },
        StartGamePlayer {
            username: "player2".to_string(),
            player_id: Uuid::from_str("955f039a-ab05-49f3-83a9-720980cf3832").unwrap().as_u128(),
            public_key: "public_key2".to_string(),
        },
    ]
}

fn started_table(stream: &mut RandomStream) -> PokerTable {
    handle_start_game(stream, 1, &two_players()).unwrap()
}

#[test]
fn test_random() {
    let entropy = mock_entropy();
    let counter = init_counter(&entropy).unwrap();
    let mut stream = RandomStream::new(entropy, counter).unwrap();
    let secret = generate_random_number(&mut stream);
    let shares = additive_secret_sharing(&mut stream, 5, secret);
    assert_eq!(shares.len(), 5);
    assert_eq!(reconstruct_secret(&shares), secret);
    assert_eq!(stream.counter(), counter + 5);
}

#[test]
fn test_init_counter() {
    let entropy = mock_entropy();
    let bytes = entropy.clone().unwrap();
    let mut first = [0u8; 16];
    first.copy_from_slice(&bytes[..16]);
    let expected = u128::from_le_bytes(first) % 1000;
    let counter = init_counter(&entropy).unwrap();
    assert_eq!(counter, expected);
    assert!(counter < 1000);
}

#[test]
fn start_game() {
    let entropy = mock_entropy();
    let counter = init_counter(&entropy).unwrap();
    let mut stream = RandomStream::new(entropy, counter).unwrap();
    let table = started_table(&mut stream);
    let response = create_start_game_response(1, 1, &table.players);
    assert_eq!(response.players, vec!["player1".to_string(), "player2".to_string()]);
    assert_eq!(response.table_id, 1);
    assert_eq!(response.hand_ref, 1);
    assert_eq!(stream.counter(), counter + 1 + 4 * 2);

    let res = query_player_private_data(&table, 1, &"public_key3".to_string());
    assert_eq!(
        res,
        Err(QueryError::PlayerNotFound { table_id: 1, player: "public_key3".to_string() })
    );
    let own = query_player_private_data(&table, 1, &"public_key2".to_string()).unwrap();
    assert_eq!(own.hand, table.players[1].hand);
    assert_eq!(own.hand_seed, table.players[1].hand_secret);
}

#[test]
fn test_query_showdown() {
    let entropy = mock_entropy();
    let counter = init_counter(&entropy).unwrap();
    let mut stream = RandomStream::new(entropy, counter).unwrap();
    let mut table = started_table(&mut stream);
    handle_community_cards(&mut table, 1, GameState::Flop, now()).unwrap();
    handle_community_cards(&mut table, 1, GameState::Turn, now()).unwrap();
    handle_community_cards(&mut table, 1, GameState::River, now()).unwrap();

    let flop_secret = Some(table.community_cards.flop.secret);
    let turn_secret = Some(table.community_cards.turn.secret);
    let river_secret = Some(table.community_cards.river.secret);
    let players_secrets: Vec<u64> = table.players.iter().map(|p| p.hand_secret).collect();
    let before = table.clone();
    let res = query_showdown(&mut table, 1, flop_secret, turn_secret, river_secret, &players_secrets, now())
        .unwrap();
    assert_eq!(res.table_id, 1);
    assert_eq!(res.hand_ref, 1);
    assert_eq!(res.players_cards.len(), 2);
    assert_eq!(res.players_cards[0], ("public_key1".to_string(), before.players[0].hand.clone()));
    assert_eq!(res.players_cards[1], ("public_key2".to_string(), before.players[1].hand.clone()));
    let mut community = before.community_cards.flop.cards.clone();
    community.push(before.community_cards.turn.card);
    community.push(before.community_cards.river.card);
    assert_eq!(res.community_cards, Some(community));
    assert_eq!(table.showdown_retrieved_at, Some(now()));
}

#[test]
fn test_query_community_cards() {
    let entropy = mock_entropy();
    let counter = init_counter(&entropy).unwrap();
    let mut stream = RandomStream::new(entropy, counter).unwrap();
    let mut table = started_table(&mut stream);
    handle_community_cards(&mut table, 1, GameState::Flop, now()).unwrap();

    let secret_key = table.community_cards.flop.secret;
    let res = query_community_cards(&table, 1, GameState::Flop, secret_key).unwrap();
    assert_eq!(res.table_id, 1);
    assert_eq!(res.hand_ref, 1);
    assert_eq!(res.game_state, GameState::Flop);
    assert_eq!(res.community_cards, table.community_cards.flop.cards);
    assert_eq!(res.community_cards.len(), 3);
}
