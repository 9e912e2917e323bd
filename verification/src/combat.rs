//! The combat resolution engine: legality of a hit, the knockback it deals and
//! the cues it triggers.

use vstd::prelude::*;
use crate::model::{CombatState, EndGameEvent, EntityId, InteractionKind, MatchId, SprintEvent};
use crate::roster::Roster;

verus! {

/// Number of ticks that must separate two accepted hits on one victim.
pub const HIT_COOLDOWN_TICKS: i64 = 10;

/// Enough ticks have passed since the victim was last hit.
pub open spec fn cooldown_elapsed(current_tick: int, last_attacked_tick: int) -> bool {
    current_tick - last_attacked_tick >= HIT_COOLDOWN_TICKS as int
}

/// Both entities play, and they play in one and the same match.
pub open spec fn same_match(a: Option<MatchId>, b: Option<MatchId>) -> bool {
    a is Some && a == b
}

/// The legality rule shared by every game mode.
pub open spec fn combat_allowed(
    interaction: InteractionKind,
    current_tick: int,
    victim_last_attacked_tick: int,
    attacker_match_id: Option<MatchId>,
    victim_match_id: Option<MatchId>,
) -> bool {
    &&& interaction == InteractionKind::Attack
    &&& cooldown_elapsed(current_tick, victim_last_attacked_tick)
    &&& same_match(attacker_match_id, victim_match_id)
}

/// The legality rule of team modes: as `combat_allowed`, and the two sides differ.
pub open spec fn team_combat_allowed(
    interaction: InteractionKind,
    current_tick: int,
    victim_last_attacked_tick: int,
    attacker_team: u8,
    victim_team: u8,
    attacker_match_id: Option<MatchId>,
    victim_match_id: Option<MatchId>,
) -> bool {
    &&& combat_allowed(
        interaction,
        current_tick,
        victim_last_attacked_tick,
        attacker_match_id,
        victim_match_id,
    )
    &&& attacker_team != victim_team
}

fn cooldown_over(current_tick: i64, last_attacked_tick: i64) -> (over: bool)
    ensures
        over == cooldown_elapsed(current_tick as int, last_attacked_tick as int),
{
    if last_attacked_tick <= i64::MAX - HIT_COOLDOWN_TICKS {
        current_tick >= last_attacked_tick + HIT_COOLDOWN_TICKS
    } else {
        false
    }
}

fn in_same_match(a: Option<MatchId>, b: Option<MatchId>) -> (same: bool)
    ensures
        same == same_match(a, b),
{
    match (a, b) {
        (Some(x), Some(y)) => x.0 == y.0,
        _ => false,
    }
}

/// Decides whether an interaction counts as a hit.
///
/// The difference of the two ticks is taken over the integers, so no pair of
/// ticks is out of range.
pub fn should_process_combat(
    interaction: InteractionKind,
    current_tick: i64,
    victim_last_attacked_tick: i64,
    attacker_match_id: Option<MatchId>,
    victim_match_id: Option<MatchId>,
) -> (accepted: bool)
    ensures
        accepted == combat_allowed(
            interaction,
            current_tick as int,
            victim_last_attacked_tick as int,
            attacker_match_id,
            victim_match_id,
        ),
{
    let is_attack = match interaction {
        InteractionKind::Attack => true,
        _ => false,
    };
    is_attack && cooldown_over(current_tick, victim_last_attacked_tick) && in_same_match(
        attacker_match_id,
        victim_match_id,
    )
}

/// Decides whether an interaction counts as a hit in a team mode.
pub fn should_process_combat_with_teams(
    interaction: InteractionKind,
    current_tick: i64,
    victim_last_attacked_tick: i64,
    attacker_team: u8,
    victim_team: u8,
    attacker_match_id: Option<MatchId>,
    victim_match_id: Option<MatchId>,
) -> (accepted: bool)
    ensures
        accepted == team_combat_allowed(
            interaction,
            current_tick as int,
            victim_last_attacked_tick as int,
            attacker_team,
            victim_team,
            attacker_match_id,
            victim_match_id,
        ),
{
    should_process_combat(
        interaction,
        current_tick,
        victim_last_attacked_tick,
        attacker_match_id,
        victim_match_id,
    ) && attacker_team != victim_team
}

/// Matches are isolated: an interaction between entities of two different
/// matches, or with an entity that is in no match, is never a hit, whatever
/// its kind, the tick and the teams.
pub proof fn lemma_matches_are_isolated(
    interaction: InteractionKind,
    current_tick: int,
    victim_last_attacked_tick: int,
    attacker_team: u8,
    victim_team: u8,
    attacker_match_id: Option<MatchId>,
    victim_match_id: Option<MatchId>,
)
    requires
        attacker_match_id != victim_match_id || attacker_match_id is None || victim_match_id
            is None,
    ensures
        !combat_allowed(
            interaction,
            current_tick,
            victim_last_attacked_tick,
            attacker_match_id,
            victim_match_id,
        ),
        !team_combat_allowed(
            interaction,
            current_tick,
            victim_last_attacked_tick,
            attacker_team,
            victim_team,
            attacker_match_id,
            victim_match_id,
        ),
{
}

/// Cooldown: while fewer than ten ticks have passed since the victim was last
/// hit, no interaction against it is a hit, whoever attacks.
pub proof fn lemma_cooldown_rejects(
    interaction: InteractionKind,
    current_tick: int,
    victim_last_attacked_tick: int,
    attacker_team: u8,
    victim_team: u8,
    attacker_match_id: Option<MatchId>,
    victim_match_id: Option<MatchId>,
)
    requires
        current_tick - victim_last_attacked_tick < 10,
    ensures
        !combat_allowed(
            interaction,
            current_tick,
            victim_last_attacked_tick,
            attacker_match_id,
            victim_match_id,
        ),
        !team_combat_allowed(
            interaction,
            current_tick,
            victim_last_attacked_tick,
            attacker_team,
            victim_team,
            attacker_match_id,
            victim_match_id,
        ),
{
}

/// A record that carries a combat state.
pub trait HasCombatState: Sized {
    /// The combat state inside this record.
    spec fn combat_state(&self) -> CombatState;

    /// This record with its combat state replaced and nothing else touched.
    spec fn with_combat_state(self, state: CombatState) -> Self;

    /// Reading back what `with_combat_state` wrote gives what was written.
    proof fn lemma_combat_state_written(self, state: CombatState)
        ensures
            self.with_combat_state(state).combat_state() == state,
    ;

    /// The combat state of this record, for writing. Whatever the caller
    /// leaves there is the record's combat state afterwards.
    fn get_combat_state(&mut self) -> (state: &mut CombatState)
        ensures
            *state == old(self).combat_state(),
            *final(self) == old(self).with_combat_state(*final(state)),
    ;
}

impl HasCombatState for CombatState {
    open spec fn combat_state(&self) -> CombatState {
        *self
    }

    open spec fn with_combat_state(self, state: CombatState) -> CombatState {
        state
    }

    proof fn lemma_combat_state_written(self, state: CombatState) {
    }

    fn get_combat_state(&mut self) -> (state: &mut CombatState) {
        self
    }
}

/// A record after its owner started (`started`) or stopped sprinting.
pub open spec fn sprint_applied<T: HasCombatState>(record: T, started: bool) -> T {
    record.with_combat_state(record.combat_state().with_bonus(started))
}

/// The store after one sprint event. An event that names an entity without a
/// record changes nothing.
pub open spec fn after_sprint<T: HasCombatState>(
    clients: Map<EntityId, T>,
    event: SprintEvent,
) -> Map<EntityId, T> {
    if clients.dom().contains(event.entity) {
        clients.insert(event.entity, sprint_applied(clients[event.entity], event.started))
    } else {
        clients
    }
}

/// The store after a run of sprint events, taken in order.
pub open spec fn after_sprints<T: HasCombatState>(
    clients: Map<EntityId, T>,
    events: Seq<SprintEvent>,
) -> Map<EntityId, T>
    decreases events.len(),
{
    if events.len() == 0 {
        clients
    } else {
        after_sprint(after_sprints(clients, events.drop_last()), events.last())
    }
}

/// Applies the sprint transitions of one tick to the store: a start sets the
/// entity's knockback bonus, a stop clears it.
pub fn handle_sprint_events<T: HasCombatState>(
    sprinting: &Vec<SprintEvent>,
    clients: &mut Roster<T>,
)
    requires
        old(clients).wf(),
    ensures
        final(clients).wf(),
        final(clients)@ == after_sprints(old(clients)@, sprinting@),
{
    let mut i: usize = 0;
    while i < sprinting.len()
        invariant
            0 <= i <= sprinting@.len(),
            clients.wf(),
            clients@ == after_sprints(old(clients)@, sprinting@.take(i as int)),
        decreases sprinting@.len() - i,
    {
        let event = sprinting[i];
        proof {
            assert(sprinting@.take(i + 1).drop_last() == sprinting@.take(i as int));
            assert(sprinting@.take(i + 1).last() == event);
        }
        match clients.get_mut(event.entity) {
            Some(record) => {
                let state = record.get_combat_state();
                state.has_bonus_knockback = event.started;
            },
            None => {},
        }
        i += 1;
    }
    proof {
        assert(sprinting@.take(sprinting@.len() as int) == sprinting@);
    }
}

/// Sprint events never add or drop a record.
pub proof fn lemma_sprints_keep_entities<T: HasCombatState>(
    clients: Map<EntityId, T>,
    events: Seq<SprintEvent>,
)
    ensures
        after_sprints(clients, events).dom() == clients.dom(),
    decreases events.len(),
{
    if events.len() > 0 {
        lemma_sprints_keep_entities(clients, events.drop_last());
        let before = after_sprints(clients, events.drop_last());
        assert(after_sprint(before, events.last()).dom() =~= before.dom());
    }
}

/// Right after a sprint event the knockback bonus of the entity it names is
/// exactly what the event says, whatever the events before it did: set after a
/// start, cleared after a stop. The event leaves the entity's cooldown stamp
/// and every other record as they were.
pub proof fn lemma_sprint_event_decides_bonus<T: HasCombatState>(
    clients: Map<EntityId, T>,
    earlier: Seq<SprintEvent>,
    event: SprintEvent,
)
    requires
        clients.dom().contains(event.entity),
    ensures
        after_sprints(clients, earlier.push(event)).dom() == clients.dom(),
        after_sprints(clients, earlier.push(event))[event.entity].combat_state().has_bonus_knockback
            == event.started,
        after_sprints(
            clients,
            earlier.push(event),
        )[event.entity].combat_state().last_attacked_tick == after_sprints(
            clients,
            earlier,
        )[event.entity].combat_state().last_attacked_tick,
        forall|other: EntityId|
            other != event.entity && clients.dom().contains(other) ==> #[trigger] after_sprints(
                clients,
                earlier.push(event),
            )[other] == after_sprints(clients, earlier)[other],
{
    let all = earlier.push(event);
    assert(all.drop_last() == earlier);
    assert(all.last() == event);
    lemma_sprints_keep_entities(clients, earlier);
    lemma_sprints_keep_entities(clients, all);
    let before = after_sprints(clients, earlier);
    let record = before[event.entity];
    record.lemma_combat_state_written(record.combat_state().with_bonus(event.started));
}

/// Strength of the push a hit deals, in thousandths of a block per tick.
#[derive(Clone, Copy, PartialEq, Eq, Structural, Debug)]
pub struct Knockback {
    /// Speed along the horizontal direction from attacker to victim.
    pub horizontal: u32,
    /// Upward speed.
    pub vertical: u32,
}

/// The push of an ordinary hit: 8.0 sideways, 6.432 up.
pub open spec fn base_knockback() -> Knockback {
    Knockback { horizontal: 8000, vertical: 6432 }
}

/// The push of a hit landed out of a sprint: 18.0 sideways, 8.432 up.
pub open spec fn boosted_knockback() -> Knockback {
    Knockback { horizontal: 18000, vertical: 8432 }
}

/// The push dealt by an attacker with or without the sprint bonus.
pub open spec fn knockback_for(has_bonus_knockback: bool) -> Knockback {
    if has_bonus_knockback {
        boosted_knockback()
    } else {
        base_knockback()
    }
}

/// What a player is told when a bout is decided.
#[derive(Clone, Copy, PartialEq, Eq, Structural, Debug)]
pub enum Notice {
    /// Told to the entity that went down.
    KnockedOut,
    /// Told to the entity that landed the deciding hit.
    OpponentKnockedOut,
}

/// Something the caller has to carry out in the world on behalf of the rules.
#[derive(Clone, Copy, PartialEq, Eq, Structural, Debug)]
pub enum Action {
    /// Play the hurt sound to `listener`, coming from where `source` stands.
    HurtSound { listener: EntityId, source: EntityId },
    /// Show `viewer` the damage tilt of `subject`.
    DamageTilt { viewer: EntityId, subject: EntityId },
    /// Set the velocity of `victim`: `strength.horizontal` along the unit
    /// vector that points from `attacker` to `victim` in the horizontal
    /// plane, and `strength.vertical` upwards.
    Launch { attacker: EntityId, victim: EntityId, strength: Knockback },
    /// Send a message to `recipient`.
    Tell { recipient: EntityId, notice: Notice },
    /// Ask the match lifecycle to end a match.
    EndGame(EndGameEvent),
}

/// Everything an accepted hit triggers, in the order in which it happens:
/// sound and tilt for the victim, sound and tilt for the attacker, each once,
/// then the push.
pub open spec fn hit_actions(
    attacker: EntityId,
    attacker_has_bonus_knockback: bool,
    victim: EntityId,
) -> Seq<Action> {
    seq![
        Action::HurtSound { listener: victim, source: victim },
        Action::DamageTilt { viewer: victim, subject: victim },
        Action::HurtSound { listener: attacker, source: victim },
        Action::DamageTilt { viewer: attacker, subject: victim },
        Action::Launch {
            attacker,
            victim,
            strength: knockback_for(attacker_has_bonus_knockback),
        },
    ]
}

/// The push dealt by an attacker with or without the sprint bonus.
pub fn knockback_profile(has_bonus_knockback: bool) -> (strength: Knockback)
    ensures
        strength == knockback_for(has_bonus_knockback),
{
    if has_bonus_knockback {
        Knockback { horizontal: 18000, vertical: 8432 }
    } else {
        Knockback { horizontal: 8000, vertical: 6432 }
    }
}

/// Works out the effects of an accepted hit: the cues for both sides and the
/// push on the victim.
pub fn apply_combat_effects(
    attacker: EntityId,
    attacker_has_bonus_knockback: bool,
    victim: EntityId,
) -> (actions: Vec<Action>)
    ensures
        actions@ == hit_actions(attacker, attacker_has_bonus_knockback, victim),
{
    let mut actions: Vec<Action> = Vec::new();
    actions.push(Action::HurtSound { listener: victim, source: victim });
    actions.push(Action::DamageTilt { viewer: victim, subject: victim });
    actions.push(Action::HurtSound { listener: attacker, source: victim });
    actions.push(Action::DamageTilt { viewer: attacker, subject: victim });
    actions.push(
        Action::Launch {
            attacker,
            victim,
            strength: knockback_profile(attacker_has_bonus_knockback),
        },
    );
    assert(actions@ =~= hit_actions(attacker, attacker_has_bonus_knockback, victim));
    actions
}

} // verus!
