//! Boxing: nobody takes damage, hits are counted. The fifth accepted hit on an
//! entity knocks it out and ends its match.

use vstd::prelude::*;
use crate::combat::{hit_actions, Action, HasCombatState, Notice};
use crate::model::{CombatState, EndGameEvent, EntityId, InteractEvent, PlayerGameState};
use crate::rules::{clients_after_interaction, hit_counts, interaction_actions, RuleSet};

verus! {

/// Number of accepted hits that knock an entity out.
pub const KNOCKOUT_HITS: u8 = 5;

/// The hit counter of one boxer.
#[derive(Clone, Copy, PartialEq, Eq, Structural, Debug)]
pub struct BoxingState {
    /// Accepted hits taken since the counter was last reset. The counter stops
    /// at the largest value it can hold.
    pub hits: u8,
}

impl BoxingState {
    /// A counter at zero.
    pub open spec fn fresh() -> BoxingState {
        BoxingState { hits: 0 }
    }

    /// The counter after one more accepted hit.
    pub open spec fn counted(self) -> BoxingState {
        BoxingState {
            hits: if self.hits < u8::MAX {
                (self.hits + 1) as u8
            } else {
                u8::MAX
            },
        }
    }

    pub fn new() -> (state: BoxingState)
        ensures
            state == BoxingState::fresh(),
    {
        BoxingState { hits: 0 }
    }
}

impl Default for BoxingState {
    fn default() -> (state: BoxingState)
        ensures
            state == BoxingState::fresh(),
    {
        BoxingState::new()
    }
}

/// The record of a boxer.
#[derive(Clone, Copy, PartialEq, Eq, Structural, Debug)]
pub struct Boxer {
    pub state: CombatState,
    pub game: PlayerGameState,
    pub boxing: BoxingState,
}

impl Boxer {
    /// The record of a player that has not fought yet.
    pub fn new(game: PlayerGameState) -> (boxer: Boxer)
        ensures
            boxer == (Boxer { state: CombatState::fresh(), game, boxing: BoxingState::fresh() }),
    {
        Boxer { state: CombatState::new(), game, boxing: BoxingState::new() }
    }
}

impl HasCombatState for Boxer {
    open spec fn combat_state(&self) -> CombatState {
        self.state
    }

    open spec fn with_combat_state(self, state: CombatState) -> Boxer {
        Boxer { state, game: self.game, boxing: self.boxing }
    }

    proof fn lemma_combat_state_written(self, state: CombatState) {
    }

    fn get_combat_state(&mut self) -> (state: &mut CombatState) {
        &mut self.state
    }
}

impl RuleSet for Boxer {
    open spec fn game_state(&self) -> PlayerGameState {
        self.game
    }

    /// The hit is counted.
    open spec fn after_hit(self) -> Boxer {
        Boxer { state: self.state, game: self.game, boxing: self.boxing.counted() }
    }

    /// The hit decides the match if, counted, it is at least the fifth.
    open spec fn falls_to_hit(self) -> bool {
        self.boxing.counted().hits >= KNOCKOUT_HITS
    }

    open spec fn announces_knockout() -> bool {
        true
    }

    /// The counter goes back to zero.
    open spec fn at_baseline(self) -> Boxer {
        Boxer { state: self.state, game: self.game, boxing: BoxingState::fresh() }
    }

    proof fn lemma_policy_keeps_to_itself(self, state: CombatState) {
    }

    fn game(&self) -> (game: PlayerGameState) {
        self.game
    }

    fn take_hit(&mut self) -> (fallen: bool) {
        if self.boxing.hits < u8::MAX {
            self.boxing.hits += 1;
        }
        self.boxing.hits >= KNOCKOUT_HITS
    }

    fn knockout_announced() -> (announced: bool) {
        true
    }

    fn reset(&mut self) {
        self.boxing.hits = 0;
    }
}

/// An accepted hit on a boxer is counted. If that makes five or more, the hit
/// is followed by the two announcements and by exactly one request to end the
/// victim's match, with the victim's team as loser. If it makes fewer, the hit
/// has its effects and nothing more.
pub proof fn lemma_fifth_hit_knocks_out(
    clients: Map<EntityId, Boxer>,
    tick: i64,
    event: InteractEvent,
)
    requires
        hit_counts(clients, tick, event),
    ensures
        clients_after_interaction(clients, tick, event)[event.victim].boxing
            == clients[event.victim].boxing.counted(),
        clients[event.victim].boxing.hits + 1 < KNOCKOUT_HITS ==> interaction_actions(
            clients,
            tick,
            event,
        ) == hit_actions(
            event.attacker,
            clients[event.attacker].state.has_bonus_knockback,
            event.victim,
        ),
        clients[event.victim].boxing.hits + 1 >= KNOCKOUT_HITS ==> interaction_actions(
            clients,
            tick,
            event,
        ) == hit_actions(
            event.attacker,
            clients[event.attacker].state.has_bonus_knockback,
            event.victim,
        ) + seq![
            Action::Tell { recipient: event.victim, notice: Notice::KnockedOut },
            Action::Tell { recipient: event.attacker, notice: Notice::OpponentKnockedOut },
            Action::EndGame(
                EndGameEvent {
                    match_id: clients[event.victim].game.match_id->0,
                    loser: clients[event.victim].game.team,
                },
            ),
        ],
{
    let effects = hit_actions(
        event.attacker,
        clients[event.attacker].state.has_bonus_knockback,
        event.victim,
    );
    if clients[event.victim].boxing.hits + 1 >= KNOCKOUT_HITS {
        assert(interaction_actions(clients, tick, event) =~= effects + seq![
            Action::Tell { recipient: event.victim, notice: Notice::KnockedOut },
            Action::Tell { recipient: event.attacker, notice: Notice::OpponentKnockedOut },
            Action::EndGame(
                EndGameEvent {
                    match_id: clients[event.victim].game.match_id->0,
                    loser: clients[event.victim].game.team,
                },
            ),
        ]);
    }
}

} // verus!
