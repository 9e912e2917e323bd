//! The out-of-bounds detector: an entity that drops below the arena loses.

use vstd::prelude::*;
use crate::model::{EndGameEvent, PlayerGameState};

verus! {

/// The arena's lower bound: an entity below this height has fallen out.
pub const ARENA_FLOOR: i64 = 0;

/// Where an entity stands, as far as the detector cares.
#[derive(Clone, Copy, PartialEq, Eq, Structural, Debug)]
pub struct Standing {
    /// Height of the entity in whole blocks, rounded down.
    pub y: i64,
    /// Match and team of the entity.
    pub game: PlayerGameState,
}

/// The entity is below the arena and plays in a match.
pub open spec fn fell_out(standing: Standing) -> bool {
    standing.y < ARENA_FLOOR && standing.game.match_id is Some
}

/// The request that ends the match of an entity that fell out, with its team
/// as loser.
pub open spec fn fall_out_event(standing: Standing) -> EndGameEvent {
    EndGameEvent { match_id: standing.game.match_id->0, loser: standing.game.team }
}

/// One request for each entity that fell out, in the order of the entities.
/// Entities in no match are passed over.
pub open spec fn oob_events(positions: Seq<Standing>) -> Seq<EndGameEvent>
    decreases positions.len(),
{
    if positions.len() == 0 {
        Seq::<EndGameEvent>::empty()
    } else if fell_out(positions.last()) {
        oob_events(positions.drop_last()).push(fall_out_event(positions.last()))
    } else {
        oob_events(positions.drop_last())
    }
}

/// Asks to end the match of every entity that has fallen below the arena.
pub fn handle_oob_clients(positions: &Vec<Standing>) -> (end_game: Vec<EndGameEvent>)
    ensures
        end_game@ == oob_events(positions@),
{
    let mut end_game: Vec<EndGameEvent> = Vec::new();
    let mut i: usize = 0;
    while i < positions.len()
        invariant
            0 <= i <= positions@.len(),
            end_game@ == oob_events(positions@.take(i as int)),
        decreases positions@.len() - i,
    {
        proof {
            assert(positions@.take(i + 1).drop_last() == positions@.take(i as int));
            assert(positions@.take(i + 1).last() == positions@[i as int]);
        }
        let standing = positions[i];
        if standing.y < ARENA_FLOOR {
            match standing.game.match_id {
                Some(match_id) => {
                    end_game.push(EndGameEvent { match_id, loser: standing.game.team });
                },
                None => {},
            }
        }
        i += 1;
    }
    proof {
        assert(positions@.take(positions@.len() as int) == positions@);
    }
    end_game
}

/// An entity that fell out while in a match is answered by exactly one
/// request, which names its match and its team; an entity above the floor or
/// in no match by none.
pub proof fn lemma_one_request_per_fall(standing: Standing)
    ensures
        fell_out(standing) ==> oob_events(seq![standing]) == seq![fall_out_event(standing)],
        !fell_out(standing) ==> oob_events(seq![standing]) == Seq::<EndGameEvent>::empty(),
{
    let one = seq![standing];
    assert(one.drop_last() == Seq::<Standing>::empty());
    assert(one.last() == standing);
    assert(oob_events(one.drop_last()) == Seq::<EndGameEvent>::empty());
    if fell_out(standing) {
        assert(oob_events(one) =~= seq![fall_out_event(standing)]);
    }
}

} // verus!
