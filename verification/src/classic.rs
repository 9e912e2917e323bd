//! Classic: every accepted hit costs a fixed amount of health. A hit that
//! finds its victim with no more health than that ends the victim's match.

use vstd::prelude::*;
use valence::inventory::Inventory;
use crate::combat::{hit_actions, Action, HasCombatState};
use crate::inventory::{inventory_slots, set_slot, slot_count, stocked, Item};
use crate::model::{CombatState, EndGameEvent, EntityId, InteractEvent, PlayerGameState};
use crate::rules::{clients_after_interaction, hit_counts, interaction_actions, RuleSet};

verus! {

/// Health taken by one accepted hit, in hundredths of a health point: 5.83.
pub const HIT_DAMAGE: u32 = 583;

/// Health of an entity at the start of a match, in hundredths: 20.00.
pub const FULL_HEALTH: u32 = 2000;

/// The record of a classic duel player.
#[derive(Clone, Copy, PartialEq, Eq, Structural, Debug)]
pub struct Duelist {
    pub state: CombatState,
    pub game: PlayerGameState,
    /// Health pool in hundredths of a health point.
    pub health: u32,
}

impl Duelist {
    /// The record of a player that has not fought yet, at full health.
    pub fn new(game: PlayerGameState) -> (duelist: Duelist)
        ensures
            duelist == (Duelist { state: CombatState::fresh(), game, health: FULL_HEALTH }),
    {
        Duelist { state: CombatState::new(), game, health: FULL_HEALTH }
    }
}

impl HasCombatState for Duelist {
    open spec fn combat_state(&self) -> CombatState {
        self.state
    }

    open spec fn with_combat_state(self, state: CombatState) -> Duelist {
        Duelist { state, game: self.game, health: self.health }
    }

    proof fn lemma_combat_state_written(self, state: CombatState) {
    }

    fn get_combat_state(&mut self) -> (state: &mut CombatState) {
        &mut self.state
    }
}

impl RuleSet for Duelist {
    open spec fn game_state(&self) -> PlayerGameState {
        self.game
    }

    /// A victim with more health than one hit takes loses that much; one with
    /// less or just as much keeps what it has and loses the match instead.
    open spec fn after_hit(self) -> Duelist {
        Duelist {
            state: self.state,
            game: self.game,
            health: if self.health > HIT_DAMAGE {
                (self.health - HIT_DAMAGE) as u32
            } else {
                self.health
            },
        }
    }

    open spec fn falls_to_hit(self) -> bool {
        self.health <= HIT_DAMAGE
    }

    open spec fn announces_knockout() -> bool {
        false
    }

    /// The health pool is full again.
    open spec fn at_baseline(self) -> Duelist {
        Duelist { state: self.state, game: self.game, health: FULL_HEALTH }
    }

    proof fn lemma_policy_keeps_to_itself(self, state: CombatState) {
    }

    fn game(&self) -> (game: PlayerGameState) {
        self.game
    }

    fn take_hit(&mut self) -> (fallen: bool) {
        if self.health > HIT_DAMAGE {
            self.health -= HIT_DAMAGE;
            false
        } else {
            true
        }
    }

    fn knockout_announced() -> (announced: bool) {
        false
    }

    fn reset(&mut self) {
        self.health = FULL_HEALTH;
    }
}

/// An accepted hit on a duelist with more than 5.83 health takes 5.83 from it
/// and has its effects and nothing more. One on a duelist with 5.83 health or
/// less leaves the health as it is and is followed by exactly one request to
/// end the victim's match, with the victim's team as loser.
pub proof fn lemma_last_hit_ends_match(
    clients: Map<EntityId, Duelist>,
    tick: i64,
    event: InteractEvent,
)
    requires
        hit_counts(clients, tick, event),
    ensures
        clients[event.victim].health > HIT_DAMAGE ==> {
            &&& clients_after_interaction(clients, tick, event)[event.victim].health
                == clients[event.victim].health - HIT_DAMAGE
            &&& interaction_actions(clients, tick, event) == hit_actions(
                event.attacker,
                clients[event.attacker].state.has_bonus_knockback,
                event.victim,
            )
        },
        clients[event.victim].health <= HIT_DAMAGE ==> {
            &&& clients_after_interaction(clients, tick, event)[event.victim].health
                == clients[event.victim].health
            &&& interaction_actions(clients, tick, event) == hit_actions(
                event.attacker,
                clients[event.attacker].state.has_bonus_knockback,
                event.victim,
            ) + seq![
                Action::EndGame(
                    EndGameEvent {
                        match_id: clients[event.victim].game.match_id->0,
                        loser: clients[event.victim].game.team,
                    },
                ),
            ]
        },
{
    let effects = hit_actions(
        event.attacker,
        clients[event.attacker].state.has_bonus_knockback,
        event.victim,
    );
    if clients[event.victim].health <= HIT_DAMAGE {
        assert(interaction_actions(clients, tick, event) =~= effects + seq![
            Action::EndGame(
                EndGameEvent {
                    match_id: clients[event.victim].game.match_id->0,
                    loser: clients[event.victim].game.team,
                },
            ),
        ]);
    }
}

/// The slot that holds a player's weapon: the first slot of the hotbar.
pub const WEAPON_SLOT: u16 = 36;

/// Arms a member of a match that starts: an iron sword goes into the weapon
/// slot, whatever was there, and no other slot changes. An inventory without
/// that slot is left alone, and the answer is `false`.
pub fn start_game(inventory: &mut Inventory) -> (armed: bool)
    ensures
        armed == (inventory_slots(*old(inventory)).len() > WEAPON_SLOT),
        inventory_slots(*final(inventory)) == if armed {
            inventory_slots(*old(inventory)).update(
                WEAPON_SLOT as int,
                stocked(Some((Item::IronSword, 1u8))),
            )
        } else {
            inventory_slots(*old(inventory))
        },
{
    if slot_count(inventory) > WEAPON_SLOT {
        set_slot(inventory, WEAPON_SLOT, Some((Item::IronSword, 1)));
        true
    } else {
        false
    }
}

} // verus!
