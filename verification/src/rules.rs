//! The game-mode rule set and the engine that resolves one tick of
//! interactions under it.
//!
//! A mode plugs in its damage model and its win condition; cooldown, match
//! isolation, knockback and the sprint bonus are the same for every mode.

use vstd::prelude::*;
use crate::combat::{
    after_sprints, apply_combat_effects, base_knockback, combat_allowed, handle_sprint_events,
    hit_actions, should_process_combat, Action, HasCombatState, Notice,
};
use crate::model::{CombatState, EndGameEvent, EntityId, InteractEvent, PlayerGameState, SprintEvent};
use crate::roster::Roster;

verus! {

/// The per-entity record of one game mode, with the mode's policy.
pub trait RuleSet: HasCombatState + Copy {
    /// Match and team of the entity.
    spec fn game_state(&self) -> PlayerGameState;

    /// Damage model: the record of a victim after an accepted hit.
    spec fn after_hit(self) -> Self;

    /// Win condition: whether the accepted hit that finds the victim with
    /// this record decides the match against it.
    spec fn falls_to_hit(self) -> bool;

    /// Whether both sides are told when a hit decides the match.
    spec fn announces_knockout() -> bool;

    /// The record with the mode's counters back at their baseline.
    spec fn at_baseline(self) -> Self;

    /// The mode's policy touches neither the combat state nor the match
    /// membership, and writing the combat state leaves the membership alone.
    proof fn lemma_policy_keeps_to_itself(self, state: CombatState)
        ensures
            self.with_combat_state(state).game_state() == self.game_state(),
            self.after_hit().game_state() == self.game_state(),
            self.after_hit().combat_state() == self.combat_state(),
            self.at_baseline().game_state() == self.game_state(),
            self.at_baseline().combat_state() == self.combat_state(),
            self.at_baseline().at_baseline() == self.at_baseline(),
    ;

    fn game(&self) -> (game: PlayerGameState)
        ensures
            game == self.game_state(),
    ;

    /// Applies the damage model and reports whether the hit decided the match.
    fn take_hit(&mut self) -> (fallen: bool)
        ensures
            *final(self) == old(self).after_hit(),
            fallen == old(self).falls_to_hit(),
    ;

    fn knockout_announced() -> (announced: bool)
        ensures
            announced == Self::announces_knockout(),
    ;

    /// Puts the mode's counters back at their baseline.
    fn reset(&mut self)
        ensures
            *final(self) == old(self).at_baseline(),
    ;
}

/// A victim's record stamped with the tick of the hit.
pub open spec fn struck<M: RuleSet>(victim: M, tick: i64) -> M {
    victim.with_combat_state(victim.combat_state().struck_at(tick))
}

/// An attacker's record with the sprint bonus used up.
pub open spec fn spent<M: RuleSet>(attacker: M) -> M {
    attacker.with_combat_state(attacker.combat_state().with_bonus(false))
}

/// Whether an interaction is an accepted hit: both entities have a record,
/// they are two different entities, and the legality rule admits the hit.
pub open spec fn hit_counts<M: RuleSet>(
    clients: Map<EntityId, M>,
    tick: i64,
    event: InteractEvent,
) -> bool {
    &&& event.attacker != event.victim
    &&& clients.dom().contains(event.attacker)
    &&& clients.dom().contains(event.victim)
    &&& combat_allowed(
        event.kind,
        tick as int,
        clients[event.victim].combat_state().last_attacked_tick as int,
        clients[event.attacker].game_state().match_id,
        clients[event.victim].game_state().match_id,
    )
}

/// What follows a hit that decided the match: the announcements, where the
/// mode makes them, and the request to end the victim's match with the
/// victim's team as loser.
pub open spec fn verdict_actions<M: RuleSet>(
    attacker: EntityId,
    victim: EntityId,
    game: PlayerGameState,
) -> Seq<Action> {
    let told = if M::announces_knockout() {
        seq![
            Action::Tell { recipient: victim, notice: Notice::KnockedOut },
            Action::Tell { recipient: attacker, notice: Notice::OpponentKnockedOut },
        ]
    } else {
        Seq::<Action>::empty()
    };
    told.push(Action::EndGame(EndGameEvent { match_id: game.match_id->0, loser: game.team }))
}

/// The store after one interaction. Anything but an accepted hit changes
/// nothing. An accepted hit stamps the victim with the tick and applies the
/// damage model to it, and uses up the attacker's sprint bonus.
pub open spec fn clients_after_interaction<M: RuleSet>(
    clients: Map<EntityId, M>,
    tick: i64,
    event: InteractEvent,
) -> Map<EntityId, M> {
    if hit_counts(clients, tick, event) {
        clients.insert(event.victim, struck(clients[event.victim], tick).after_hit()).insert(
            event.attacker,
            spent(clients[event.attacker]),
        )
    } else {
        clients
    }
}

/// The actions of one interaction: none unless it is an accepted hit, else the
/// effects of the hit, followed by the verdict if the hit decided the match.
pub open spec fn interaction_actions<M: RuleSet>(
    clients: Map<EntityId, M>,
    tick: i64,
    event: InteractEvent,
) -> Seq<Action> {
    if hit_counts(clients, tick, event) {
        let effects = hit_actions(
            event.attacker,
            clients[event.attacker].combat_state().has_bonus_knockback,
            event.victim,
        );
        if struck(clients[event.victim], tick).falls_to_hit() {
            effects + verdict_actions::<M>(
                event.attacker,
                event.victim,
                clients[event.victim].game_state(),
            )
        } else {
            effects
        }
    } else {
        Seq::<Action>::empty()
    }
}

/// The store after a run of interactions at one tick, taken in order.
pub open spec fn clients_after<M: RuleSet>(
    clients: Map<EntityId, M>,
    tick: i64,
    events: Seq<InteractEvent>,
) -> Map<EntityId, M>
    decreases events.len(),
{
    if events.len() == 0 {
        clients
    } else {
        clients_after_interaction(
            clients_after(clients, tick, events.drop_last()),
            tick,
            events.last(),
        )
    }
}

/// The actions of a run of interactions at one tick, in order. Each
/// interaction is judged against the store as the ones before it left it.
pub open spec fn actions_of<M: RuleSet>(
    clients: Map<EntityId, M>,
    tick: i64,
    events: Seq<InteractEvent>,
) -> Seq<Action>
    decreases events.len(),
{
    if events.len() == 0 {
        Seq::<Action>::empty()
    } else {
        actions_of(clients, tick, events.drop_last()) + interaction_actions(
            clients_after(clients, tick, events.drop_last()),
            tick,
            events.last(),
        )
    }
}

/// Resolves one interaction against the store and appends its actions.
pub fn resolve_interaction<M: RuleSet>(
    tick: i64,
    clients: &mut Roster<M>,
    event: InteractEvent,
    actions: &mut Vec<Action>,
)
    requires
        old(clients).wf(),
    ensures
        final(clients).wf(),
        final(clients)@ == clients_after_interaction(old(clients)@, tick, event),
        final(actions)@ == old(actions)@ + interaction_actions(old(clients)@, tick, event),
{
    if event.attacker.0 == event.victim.0 {
        assert(actions@ =~= old(actions)@ + Seq::<Action>::empty());
        return ;
    }
    let attacker = match clients.get(event.attacker) {
        Some(record) => *record,
        None => {
            assert(actions@ =~= old(actions)@ + Seq::<Action>::empty());
            return ;
        },
    };
    let victim = match clients.get(event.victim) {
        Some(record) => *record,
        None => {
            assert(actions@ =~= old(actions)@ + Seq::<Action>::empty());
            return ;
        },
    };
    let mut attacker = attacker;
    let mut victim = victim;
    let game = victim.game();
    let attacker_match = attacker.game().match_id;
    let attacker_state = attacker.get_combat_state();
    let victim_state = victim.get_combat_state();
    if !should_process_combat(
        event.kind,
        tick,
        victim_state.last_attacked_tick,
        attacker_match,
        game.match_id,
    ) {
        assert(actions@ =~= old(actions)@ + Seq::<Action>::empty());
        return ;
    }
    victim_state.last_attacked_tick = tick;
    let mut effects = apply_combat_effects(
        event.attacker,
        attacker_state.has_bonus_knockback,
        event.victim,
    );
    actions.append(&mut effects);
    attacker_state.has_bonus_knockback = false;
    let fallen = victim.take_hit();
    if fallen {
        if M::knockout_announced() {
            actions.push(Action::Tell { recipient: event.victim, notice: Notice::KnockedOut });
            actions.push(
                Action::Tell { recipient: event.attacker, notice: Notice::OpponentKnockedOut },
            );
        }
        match game.match_id {
            Some(match_id) => {
                actions.push(Action::EndGame(EndGameEvent { match_id, loser: game.team }));
            },
            None => {},
        }
    }
    clients.set(event.victim, victim);
    clients.set(event.attacker, attacker);
    assert(actions@ =~= old(actions)@ + interaction_actions(old(clients)@, tick, event));
}

/// Resolves the interactions of one tick in order.
pub fn resolve_interactions<M: RuleSet>(
    tick: i64,
    clients: &mut Roster<M>,
    interactions: &Vec<InteractEvent>,
) -> (actions: Vec<Action>)
    requires
        old(clients).wf(),
    ensures
        final(clients).wf(),
        final(clients)@ == clients_after(old(clients)@, tick, interactions@),
        actions@ == actions_of(old(clients)@, tick, interactions@),
{
    let mut actions: Vec<Action> = Vec::new();
    let mut i: usize = 0;
    while i < interactions.len()
        invariant
            0 <= i <= interactions@.len(),
            clients.wf(),
            clients@ == clients_after(old(clients)@, tick, interactions@.take(i as int)),
            actions@ == actions_of(old(clients)@, tick, interactions@.take(i as int)),
        decreases interactions@.len() - i,
    {
        proof {
            assert(interactions@.take(i + 1).drop_last() == interactions@.take(i as int));
            assert(interactions@.take(i + 1).last() == interactions@[i as int]);
        }
        resolve_interaction(tick, clients, interactions[i], &mut actions);
        i += 1;
    }
    proof {
        assert(interactions@.take(interactions@.len() as int) == interactions@);
    }
    actions
}

/// The combat system of one tick: first the sprint transitions, so that the
/// bonus is right at the moment of each hit, then the interactions.
pub fn handle_combat_events<M: RuleSet>(
    tick: i64,
    clients: &mut Roster<M>,
    sprinting: &Vec<SprintEvent>,
    interactions: &Vec<InteractEvent>,
) -> (actions: Vec<Action>)
    requires
        old(clients).wf(),
    ensures
        final(clients).wf(),
        final(clients)@ == clients_after(
            after_sprints(old(clients)@, sprinting@),
            tick,
            interactions@,
        ),
        actions@ == actions_of(after_sprints(old(clients)@, sprinting@), tick, interactions@),
{
    handle_sprint_events(sprinting, clients);
    resolve_interactions(tick, clients, interactions)
}

/// An interaction that is not an accepted hit leaves the store alone and
/// triggers nothing. That covers every interaction across two matches or with
/// an entity in no match, every one inside the cooldown, every one that names
/// an entity without a record, and an entity acting on itself.
pub proof fn lemma_rejected_interaction_is_inert<M: RuleSet>(
    clients: Map<EntityId, M>,
    tick: i64,
    event: InteractEvent,
)
    requires
        !hit_counts(clients, tick, event),
    ensures
        clients_after_interaction(clients, tick, event) == clients,
        interaction_actions(clients, tick, event) == Seq::<Action>::empty(),
{
}

/// An accepted hit stamps the victim with the current tick, uses up the
/// attacker's sprint bonus, and keeps every entity where it was: no record is
/// added or dropped, nobody changes match or team, and a record of a third
/// entity is not touched.
pub proof fn lemma_accepted_hit<M: RuleSet>(
    clients: Map<EntityId, M>,
    tick: i64,
    event: InteractEvent,
)
    requires
        hit_counts(clients, tick, event),
    ensures
        clients_after_interaction(clients, tick, event).dom() == clients.dom(),
        clients_after_interaction(
            clients,
            tick,
            event,
        )[event.victim].combat_state().last_attacked_tick == tick,
        clients_after_interaction(
            clients,
            tick,
            event,
        )[event.victim].combat_state().has_bonus_knockback
            == clients[event.victim].combat_state().has_bonus_knockback,
        !clients_after_interaction(
            clients,
            tick,
            event,
        )[event.attacker].combat_state().has_bonus_knockback,
        clients_after_interaction(
            clients,
            tick,
            event,
        )[event.attacker].combat_state().last_attacked_tick
            == clients[event.attacker].combat_state().last_attacked_tick,
        forall|id: EntityId|
            clients.dom().contains(id) ==> (#[trigger] clients_after_interaction(
                clients,
                tick,
                event,
            )[id]).game_state() == clients[id].game_state(),
        forall|id: EntityId|
            clients.dom().contains(id) && id != event.attacker && id != event.victim
                ==> #[trigger] clients_after_interaction(clients, tick, event)[id] == clients[id],
{
    let victim = clients[event.victim];
    let attacker = clients[event.attacker];
    let stamp = victim.combat_state().struck_at(tick);
    victim.lemma_combat_state_written(stamp);
    victim.lemma_policy_keeps_to_itself(stamp);
    struck(victim, tick).lemma_policy_keeps_to_itself(stamp);
    let cleared = attacker.combat_state().with_bonus(false);
    attacker.lemma_combat_state_written(cleared);
    attacker.lemma_policy_keeps_to_itself(cleared);
    assert(clients_after_interaction(clients, tick, event).dom() =~= clients.dom());
}

/// The sprint bonus is good for one hit: once an attacker has landed a hit,
/// its next hit deals the base knockback, unless a sprint start came between.
pub proof fn lemma_bonus_is_single_use<M: RuleSet>(
    clients: Map<EntityId, M>,
    tick: i64,
    event: InteractEvent,
    next_tick: i64,
    next: InteractEvent,
)
    requires
        hit_counts(clients, tick, event),
        next.attacker == event.attacker,
        hit_counts(clients_after_interaction(clients, tick, event), next_tick, next),
    ensures
        interaction_actions(
            clients_after_interaction(clients, tick, event),
            next_tick,
            next,
        ).len() >= 5,
        interaction_actions(clients_after_interaction(clients, tick, event), next_tick, next)[4]
            == (Action::Launch {
            attacker: next.attacker,
            victim: next.victim,
            strength: base_knockback(),
        }),
{
    lemma_accepted_hit(clients, tick, event);
}

/// No interaction moves a cooldown stamp backwards, adds or drops a record,
/// or changes the match or team of an entity.
pub proof fn lemma_interaction_keeps_order<M: RuleSet>(
    clients: Map<EntityId, M>,
    tick: i64,
    event: InteractEvent,
)
    ensures
        clients_after_interaction(clients, tick, event).dom() == clients.dom(),
        forall|id: EntityId|
            clients.dom().contains(id) ==> clients[id].combat_state().last_attacked_tick <= (
            #[trigger] clients_after_interaction(
                clients,
                tick,
                event,
            )[id]).combat_state().last_attacked_tick,
        forall|id: EntityId|
            clients.dom().contains(id) ==> (#[trigger] clients_after_interaction(
                clients,
                tick,
                event,
            )[id]).game_state() == clients[id].game_state(),
{
    if hit_counts(clients, tick, event) {
        lemma_accepted_hit(clients, tick, event);
    }
}

/// Over any run of interactions the cooldown stamp of every entity only ever
/// grows or stays, and the set of entities with their matches and teams stays
/// as it was.
pub proof fn lemma_stamps_never_decrease<M: RuleSet>(
    clients: Map<EntityId, M>,
    tick: i64,
    events: Seq<InteractEvent>,
)
    ensures
        clients_after(clients, tick, events).dom() == clients.dom(),
        forall|id: EntityId|
            clients.dom().contains(id) ==> clients[id].combat_state().last_attacked_tick <= (
            #[trigger] clients_after(clients, tick, events)[id]).combat_state().last_attacked_tick,
        forall|id: EntityId|
            clients.dom().contains(id) ==> (#[trigger] clients_after(
                clients,
                tick,
                events,
            )[id]).game_state() == clients[id].game_state(),
    decreases events.len(),
{
    if events.len() > 0 {
        lemma_stamps_never_decrease(clients, tick, events.drop_last());
        lemma_interaction_keeps_order(
            clients_after(clients, tick, events.drop_last()),
            tick,
            events.last(),
        );
    }
}

/// The store after the counters of the given members went back to their
/// baseline. Members without a record are passed over; a member listed twice
/// is reset once.
pub open spec fn reset_for<M: RuleSet>(
    clients: Map<EntityId, M>,
    members: Seq<EntityId>,
) -> Map<EntityId, M> {
    Map::new(
        |id: EntityId| clients.dom().contains(id),
        |id: EntityId|
            if members.contains(id) {
                clients[id].at_baseline()
            } else {
                clients[id]
            },
    )
}

/// Puts the mode's counters of every member of a match back at their
/// baseline. Called with the members of a match when it starts or ends, so
/// that the entities can play again.
pub fn reset_members<M: RuleSet>(clients: &mut Roster<M>, members: &Vec<EntityId>)
    requires
        old(clients).wf(),
    ensures
        final(clients).wf(),
        final(clients)@ == reset_for(old(clients)@, members@),
{
    let mut i: usize = 0;
    assert(clients@ =~= reset_for(old(clients)@, members@.take(0)));
    while i < members.len()
        invariant
            0 <= i <= members@.len(),
            clients.wf(),
            clients@ == reset_for(old(clients)@, members@.take(i as int)),
        decreases members@.len() - i,
    {
        let member = members[i];
        let ghost before = clients@;
        match clients.get_mut(member) {
            Some(record) => {
                record.reset();
            },
            None => {},
        }
        proof {
            let done = members@.take(i as int);
            let next = members@.take(i + 1);
            assert(next == done.push(member));
            assert forall|id: EntityId| next.contains(id) == (id == member || done.contains(
                id,
            )) by {
                if done.contains(id) {
                    let k = choose|k: int| 0 <= k < done.len() && done[k] == id;
                    assert(next[k] == id);
                }
                if id == member {
                    assert(next[i as int] == id);
                }
            }
            if before.dom().contains(member) {
                old(clients)@[member].lemma_policy_keeps_to_itself(
                    old(clients)@[member].combat_state(),
                );
            }
            assert(clients@ =~= reset_for(old(clients)@, next));
        }
        i += 1;
    }
    proof {
        assert(members@.take(members@.len() as int) == members@);
    }
}

/// Resetting the members of a match twice is the same as resetting them once,
/// so a match that is torn down a second time is left as the first teardown
/// left it. A reset keeps every entity's combat state, match and team.
pub proof fn lemma_reset_is_idempotent<M: RuleSet>(
    clients: Map<EntityId, M>,
    members: Seq<EntityId>,
)
    ensures
        reset_for(reset_for(clients, members), members) == reset_for(clients, members),
        reset_for(clients, members).dom() == clients.dom(),
        forall|id: EntityId|
            clients.dom().contains(id) ==> (#[trigger] reset_for(
                clients,
                members,
            )[id]).combat_state() == clients[id].combat_state(),
        forall|id: EntityId|
            clients.dom().contains(id) ==> (#[trigger] reset_for(clients, members)[id]).game_state()
                == clients[id].game_state(),
{
    let once = reset_for(clients, members);
    assert(once.dom() =~= clients.dom());
    assert forall|id: EntityId| clients.dom().contains(id) implies {
        &&& (#[trigger] once[id]).combat_state() == clients[id].combat_state()
        &&& once[id].game_state() == clients[id].game_state()
        &&& reset_for(once, members)[id] == once[id]
    } by {
        clients[id].lemma_policy_keeps_to_itself(clients[id].combat_state());
    }
    assert(reset_for(once, members) =~= once);
}

} // verus!
