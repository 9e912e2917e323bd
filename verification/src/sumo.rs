//! Sumo: pure knockback. Nobody takes damage; a match ends when an entity is
//! pushed out of the arena, which the out-of-bounds detector reports.

use vstd::prelude::*;
use crate::combat::HasCombatState;
use crate::model::{CombatState, PlayerGameState};
use crate::rules::RuleSet;

verus! {

/// The record of a sumo player.
#[derive(Clone, Copy, PartialEq, Eq, Structural, Debug)]
pub struct Wrestler {
    pub state: CombatState,
    pub game: PlayerGameState,
}

impl Wrestler {
    /// The record of a player that has not fought yet.
    pub fn new(game: PlayerGameState) -> (wrestler: Wrestler)
        ensures
            wrestler == (Wrestler { state: CombatState::fresh(), game }),
    {
        Wrestler { state: CombatState::new(), game }
    }
}

impl HasCombatState for Wrestler {
    open spec fn combat_state(&self) -> CombatState {
        self.state
    }

    open spec fn with_combat_state(self, state: CombatState) -> Wrestler {
        Wrestler { state, game: self.game }
    }

    proof fn lemma_combat_state_written(self, state: CombatState) {
    }

    fn get_combat_state(&mut self) -> (state: &mut CombatState) {
        &mut self.state
    }
}

impl RuleSet for Wrestler {
    open spec fn game_state(&self) -> PlayerGameState {
        self.game
    }

    open spec fn after_hit(self) -> Wrestler {
        self
    }

    open spec fn falls_to_hit(self) -> bool {
        false
    }

    open spec fn announces_knockout() -> bool {
        false
    }

    open spec fn at_baseline(self) -> Wrestler {
        self
    }

    proof fn lemma_policy_keeps_to_itself(self, state: CombatState) {
    }

    fn game(&self) -> (game: PlayerGameState) {
        self.game
    }

    fn take_hit(&mut self) -> (fallen: bool) {
        false
    }

    fn knockout_announced() -> (announced: bool) {
        false
    }

    fn reset(&mut self) {
    }
}

} // verus!
