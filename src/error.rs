use vstd::prelude::*;

use crate::state::GameState;

verus! {

/// Failures of the operations that change a table or the draw counter.
#[derive(Clone, Debug, PartialEq, Eq)]
pub enum ContractError {
    /// The caller is not the owner.
    Unauthorized,
    /// No entropy value was available to start a hand.
    EntropyUnavailable,
    /// A hand needs between two and nine players.
    InvalidPlayerCount { count: usize },
    /// Two players share a public key.
    DuplicatePublicKeys,
    /// A phase transition other than the next one in sequence; `needed` is that next phase
    /// (none after the river) and `actual` the phase that was requested.
    GameStateError { table_id: u32, needed: Option<GameState>, actual: GameState },
    /// No player of the table has this identifier.
    PlayerNotFound { table_id: u32, player: String },
    /// No player of the table has this 128-bit player identifier.
    UnknownPlayerId { table_id: u32, player_id: u128 },
    /// No table is stored under this identifier.
    TableNotFound { table_id: u32 },
    /// A response could not be encoded.
    SerializationFailed { error: String },
}

/// Failures of the read-only queries.
#[derive(Clone, Debug, PartialEq, Eq)]
pub enum QueryError {
    /// No player of the table has this public key.
    PlayerNotFound { table_id: u32, player: String },
    /// No table is stored under this identifier.
    TableNotFound { table_id: u32 },
    /// The phase names no street.
    InvalidGameState { game_state: GameState },
    /// The key presented is not the street's secret.
    InvalidViewingKey { key: u64 },
    /// No player of the table holds this hand secret.
    SecretNotFound { val: u64 },
}

} // verus!
