use vstd::prelude::*;

use crate::state::{Card, GameState};

verus! {

/// A player joining a hand; `player_id` is the 128-bit value of the player's UUID.
#[derive(Clone, Debug, PartialEq, Eq)]
pub struct StartGamePlayer {
    pub username: String,
    pub player_id: u128,
    pub public_key: String,
}

/// Queries that need proof of the caller's identity.
#[derive(Clone, Copy, Debug, PartialEq, Eq)]
pub enum QueryWithPermit {
    PlayerPrivateData { table_id: u32 },
}

/// What a player may see of their own seat.
#[derive(Clone, Debug, PartialEq, Eq)]
pub struct PlayerDataResponse {
    pub table_id: u32,
    pub hand_ref: u32,
    pub hand: Vec<Card>,
    pub hand_seed: u64,
    pub flop_secret: u64,
    pub turn_secret: u64,
    pub river_secret: u64,
}

/// The answers of the operations that change a table.
#[derive(Clone, Debug, PartialEq, Eq)]
pub enum ResponsePayload {
    StartGame(StartGameResponse),
    CommunityCards(CommunityCardsResponse),
    Showdown(ShowdownResponse),
}

/// A started hand: the players' usernames in seat order.
#[derive(Clone, Debug, PartialEq, Eq)]
pub struct StartGameResponse {
    pub table_id: u32,
    pub hand_ref: u32,
    pub players: Vec<String>,
}

/// The cards of one street.
#[derive(Clone, Debug, PartialEq, Eq)]
pub struct CommunityCardsResponse {
    pub table_id: u32,
    pub hand_ref: u32,
    pub game_state: GameState,
    pub community_cards: Vec<Card>,
}

/// Shown hands, each under its player's public key, and community cards.
#[derive(Clone, Debug, PartialEq, Eq)]
pub struct ShowdownResponse {
    pub table_id: u32,
    pub hand_ref: u32,
    pub players_cards: Vec<(String, Vec<Card>)>,
    pub community_cards: Option<Vec<Card>>,
}

/// A player's hole cards as logged after the hand.
#[derive(Clone, Debug, PartialEq, Eq)]
pub struct ShowdownPlayer {
    pub username: String,
    pub hand: Vec<Card>,
}

/// The record of a finished hand; the times are block times in nanoseconds.
#[derive(Clone, Debug, PartialEq, Eq)]
pub struct LastHandLogResponse {
    pub showdown_players: Vec<ShowdownPlayer>,
    pub community_cards: Vec<Card>,
    pub flop_retrieved_at: Option<u64>,
    pub turn_retrieved_at: Option<u64>,
    pub river_retrieved_at: Option<u64>,
    pub showdown_retrieved_at: Option<u64>,
}

} // verus!
