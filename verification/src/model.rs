//! The records that the combat rules read and write.

use vstd::prelude::*;

verus! {

/// Handle of one participant in the simulated world.
#[derive(Clone, Copy, PartialEq, Eq, Structural, Debug, Hash)]
pub struct EntityId(pub u64);

/// Token that names one running match. Only ever compared for equality.
#[derive(Clone, Copy, PartialEq, Eq, Structural, Debug, Hash)]
pub struct MatchId(pub u64);

/// What a client did to another entity.
#[derive(Clone, Copy, PartialEq, Eq, Structural, Debug)]
pub enum InteractionKind {
    /// A plain use of the entity.
    Interact,
    /// A hit.
    Attack,
    /// A use aimed at a point on the entity.
    InteractAt,
}

/// Per-entity combat record.
#[derive(Clone, Copy, PartialEq, Eq, Structural, Debug)]
pub struct CombatState {
    /// Tick of the last accepted hit against this entity.
    pub last_attacked_tick: i64,
    /// True while the entity is sprinting and has not yet landed a hit.
    pub has_bonus_knockback: bool,
}

impl CombatState {
    /// The baseline record of an entity that has never fought.
    pub open spec fn fresh() -> CombatState {
        CombatState { last_attacked_tick: 0, has_bonus_knockback: false }
    }

    /// This record with the sprint bonus set to `on`.
    pub open spec fn with_bonus(self, on: bool) -> CombatState {
        CombatState { last_attacked_tick: self.last_attacked_tick, has_bonus_knockback: on }
    }

    /// This record after an accepted hit against its owner at `tick`.
    pub open spec fn struck_at(self, tick: i64) -> CombatState {
        CombatState { last_attacked_tick: tick, has_bonus_knockback: self.has_bonus_knockback }
    }

    pub fn new() -> (state: CombatState)
        ensures
            state == CombatState::fresh(),
    {
        CombatState { last_attacked_tick: 0, has_bonus_knockback: false }
    }
}

impl Default for CombatState {
    fn default() -> (state: CombatState)
        ensures
            state == CombatState::fresh(),
    {
        CombatState::new()
    }
}

/// Where an entity stands in the match lifecycle.
#[derive(Clone, Copy, PartialEq, Eq, Structural, Debug)]
pub struct PlayerGameState {
    /// The match the entity plays in, `None` while it waits in the lobby.
    pub match_id: Option<MatchId>,
    /// Team, which doubles as the loser slot reported when the entity loses.
    pub team: u8,
}

impl PlayerGameState {
    /// The record of an entity that is in no match.
    pub open spec fn lobby() -> PlayerGameState {
        PlayerGameState { match_id: None, team: 0 }
    }

    pub fn new() -> (state: PlayerGameState)
        ensures
            state == PlayerGameState::lobby(),
    {
        PlayerGameState { match_id: None, team: 0 }
    }
}

impl Default for PlayerGameState {
    fn default() -> (state: PlayerGameState)
        ensures
            state == PlayerGameState::lobby(),
    {
        PlayerGameState::new()
    }
}

/// Request to end a match, naming the side that lost.
#[derive(Clone, Copy, PartialEq, Eq, Structural, Debug)]
pub struct EndGameEvent {
    pub match_id: MatchId,
    pub loser: u8,
}

/// An entity started or stopped sprinting.
#[derive(Clone, Copy, PartialEq, Eq, Structural, Debug)]
pub struct SprintEvent {
    pub entity: EntityId,
    pub started: bool,
}

/// One entity acted on another.
#[derive(Clone, Copy, PartialEq, Eq, Structural, Debug)]
pub struct InteractEvent {
    pub attacker: EntityId,
    pub victim: EntityId,
    pub kind: InteractionKind,
}

} // verus!
