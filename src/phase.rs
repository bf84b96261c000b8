use vstd::prelude::*;

use crate::error::{ContractError, QueryError};
use crate::msg::CommunityCardsResponse;
use crate::state::{Card, CommunityCards, GameState, PokerTable};

verus! {

/// What a reveal of the street of `game_state` with `key` discloses: the street's cards when
/// `key` is its secret.
pub open spec fn reveal_outcome(cc: CommunityCards, game_state: GameState, key: u64) -> Result<Seq<Card>, QueryError> {
    if game_state == GameState::PreFlop {
        Err(QueryError::InvalidGameState { game_state })
    } else if key != cc.street_secret(game_state) {
        Err(QueryError::InvalidViewingKey { key })
    } else {
        Ok(cc.street_cards(game_state))
    }
}

/// The outcome of asking to move a table at `current` to `requested`: only the next phase in
/// sequence is accepted.
pub open spec fn advance_outcome(current: GameState, requested: GameState, table_id: u32) -> Result<GameState, ContractError> {
    if current.spec_next() == Some(requested) {
        Ok(requested)
    } else {
        Err(ContractError::GameStateError { table_id, needed: current.spec_next(), actual: requested })
    }
}

/// Revealing a street leaves what a later reveal of it discloses unchanged: a second
/// identical reveal returns what the first did.
pub proof fn lemma_reveal_idempotent(cc: CommunityCards, game_state: GameState, key: u64, now: u64)
    ensures
        reveal_outcome(cc.marked(game_state, now), game_state, key) == reveal_outcome(cc, game_state, key),
        cc.marked(game_state, now).marked(game_state, now) == cc.marked(game_state, now),
{
}

/// The cards withheld until the river add up to the three streets: at each phase the all-in
/// path discloses exactly the streets not yet reached.
pub proof fn lemma_all_in_covers_unreached_streets(cc: CommunityCards)
    ensures
        cc.remaining_after(GameState::PreFlop) == Some(
            cc.street_cards(GameState::Flop) + cc.street_cards(GameState::Turn) + cc.street_cards(GameState::River),
        ),
        cc.remaining_after(GameState::Flop) == Some(
            cc.street_cards(GameState::Turn) + cc.street_cards(GameState::River),
        ),
        cc.remaining_after(GameState::Turn) == Some(cc.street_cards(GameState::River)),
        cc.remaining_after(GameState::River) is None,
{
    assert(cc.all_cards() =~= cc.street_cards(GameState::Flop) + cc.street_cards(GameState::Turn)
        + cc.street_cards(GameState::River));
    assert(seq![cc.turn.card, cc.river.card] =~= cc.street_cards(GameState::Turn) + cc.street_cards(
        GameState::River,
    ));
}

/// The cards of the street that `game_state` names.
fn street_cards_of(cc: &CommunityCards, game_state: GameState) -> (r: Vec<Card>)
    ensures
        r@ == cc.street_cards(game_state),
{
    match game_state {
        GameState::PreFlop => Vec::new(),
        GameState::Flop => {
            let mut cards: Vec<Card> = Vec::new();
            let mut i: usize = 0;
            while i < cc.flop.cards.len()
                invariant
                    i <= cc.flop.cards@.len(),
                    cards@ == cc.flop.cards@.take(i as int),
                decreases cc.flop.cards@.len() - i,
            {
                cards.push(cc.flop.cards[i]);
                i = i + 1;
                assert(cards@ =~= cc.flop.cards@.take(i as int));
            }
            assert(cc.flop.cards@.take(i as int) =~= cc.flop.cards@);
            cards
        },
        GameState::Turn => vec![cc.turn.card],
        GameState::River => vec![cc.river.card],
    }
}

/// The viewing secret of the street that `game_state` names.
fn street_secret_of(cc: &CommunityCards, game_state: GameState) -> (r: u64)
    ensures
        r == cc.street_secret(game_state),
{
    match game_state {
        GameState::PreFlop => 0,
        GameState::Flop => cc.flop.secret,
        GameState::Turn => cc.turn.secret,
        GameState::River => cc.river.secret,
    }
}

/// Sets the disclosure time of the street of `game_state` to `now` unless it is already set.
pub fn mark_street(cc: &mut CommunityCards, game_state: GameState, now: u64)
    ensures
        *final(cc) == old(cc).marked(game_state, now),
{
    match game_state {
        GameState::PreFlop => {},
        GameState::Flop => {
            if cc.flop.retrieved_at.is_none() {
                cc.flop.retrieved_at = Some(now);
            }
        },
        GameState::Turn => {
            if cc.turn.retrieved_at.is_none() {
                cc.turn.retrieved_at = Some(now);
            }
        },
        GameState::River => {
            if cc.river.retrieved_at.is_none() {
                cc.river.retrieved_at = Some(now);
            }
        },
    }
}

/// The cards of the street of `game_state`, provided `secret_key` is that street's secret.
pub fn query_community_cards(table: &PokerTable, table_id: u32, game_state: GameState, secret_key: u64) -> (r: Result<CommunityCardsResponse, QueryError>)
    ensures
        r matches Err(e) ==> reveal_outcome(table.community_cards, game_state, secret_key) == Err::<Seq<Card>, QueryError>(e),
        r matches Ok(resp) ==> {
            &&& reveal_outcome(table.community_cards, game_state, secret_key) == Ok::<Seq<Card>, QueryError>(resp.community_cards@)
            &&& resp.table_id == table_id
            &&& resp.hand_ref == table.hand_ref
            &&& resp.game_state == game_state
        },
        table.wf() ==> (r matches Ok(resp) ==> resp.community_cards@.len() == if game_state == GameState::Flop { 3int } else { 1int }),
{
    if game_state == GameState::PreFlop {
        return Err(QueryError::InvalidGameState { game_state });
    }
    let stored_key = street_secret_of(&table.community_cards, game_state);
    if stored_key != secret_key {
        return Err(QueryError::InvalidViewingKey { key: secret_key });
    }
    Ok(CommunityCardsResponse {
        table_id,
        hand_ref: table.hand_ref,
        game_state,
        community_cards: street_cards_of(&table.community_cards, game_state),
    })
}

/// Progressive reveal: the street's cards when `secret_key` is its secret, recording the first
/// disclosure time. A failed reveal leaves the table as it was.
pub fn reveal_street(table: &mut PokerTable, table_id: u32, game_state: GameState, secret_key: u64, now: u64) -> (r: Result<CommunityCardsResponse, QueryError>)
    ensures
        r matches Err(e) ==> reveal_outcome(old(table).community_cards, game_state, secret_key) == Err::<Seq<Card>, QueryError>(e)
            && *final(table) == *old(table),
        r matches Ok(resp) ==> {
            &&& reveal_outcome(old(table).community_cards, game_state, secret_key) == Ok::<Seq<Card>, QueryError>(resp.community_cards@)
            &&& resp.table_id == table_id
            &&& resp.hand_ref == old(table).hand_ref
            &&& resp.game_state == game_state
            &&& *final(table) == PokerTable {
                community_cards: old(table).community_cards.marked(game_state, now),
                ..*old(table)
            }
        },
        old(table).wf() ==> final(table).wf(),
        old(table).wf() ==> (r matches Ok(resp) ==> resp.community_cards@.len() == if game_state == GameState::Flop { 3int } else { 1int }),
{
    let r = query_community_cards(table, table_id, game_state, secret_key);
    if r.is_ok() {
        mark_street(&mut table.community_cards, game_state, now);
    }
    r
}

/// Monotonic advance: moves the table to `game_state` when it is the next phase in sequence
/// and returns that street's cards, recording its first disclosure time. Any other request
/// fails naming the phase that would have been needed, and leaves the table as it was.
pub fn handle_community_cards(table: &mut PokerTable, table_id: u32, game_state: GameState, now: u64) -> (r: Result<CommunityCardsResponse, ContractError>)
    ensures
        advance_outcome(old(table).game_state, game_state, table_id) is Err ==> r == Err::<CommunityCardsResponse, ContractError>(
            advance_outcome(old(table).game_state, game_state, table_id)->Err_0,
        ) && *final(table) == *old(table),
        advance_outcome(old(table).game_state, game_state, table_id) is Ok ==> r is Ok,
        r matches Ok(resp) ==> {
            &&& resp.community_cards@ == old(table).community_cards.street_cards(game_state)
            &&& resp.table_id == table_id
            &&& resp.hand_ref == old(table).hand_ref
            &&& resp.game_state == game_state
            &&& *final(table) == PokerTable {
                game_state,
                community_cards: old(table).community_cards.marked(game_state, now),
                ..*old(table)
            }
        },
        old(table).wf() ==> final(table).wf(),
{
    let needed = table.game_state.next();
    match needed {
        Some(next) => {
            if next != game_state {
                return Err(ContractError::GameStateError { table_id, needed, actual: game_state });
            }
        },
        None => {
            return Err(ContractError::GameStateError { table_id, needed, actual: game_state });
        },
    }
    table.game_state = game_state;
    mark_street(&mut table.community_cards, game_state, now);
    Ok(CommunityCardsResponse {
        table_id,
        hand_ref: table.hand_ref,
        game_state,
        community_cards: street_cards_of(&table.community_cards, game_state),
    })
}

} // verus!
