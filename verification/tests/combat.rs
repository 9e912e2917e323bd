use minibit::combat::{
    apply_combat_effects, handle_sprint_events, knockback_profile, should_process_combat,
    should_process_combat_with_teams, Action, HasCombatState, Knockback, HIT_COOLDOWN_TICKS,
};
use minibit::model::{
    CombatState, EntityId, InteractionKind, MatchId, PlayerGameState, SprintEvent,
};
use minibit::roster::Roster;

const M: Option<MatchId> = Some(MatchId(7));
const OTHER: Option<MatchId> = Some(MatchId(8));

#[test]
fn attack_in_same_match_after_cooldown_is_accepted() {
    assert!(should_process_combat(InteractionKind::Attack, 100, 90, M, M));
    assert!(should_process_combat(InteractionKind::Attack, 100, 0, M, M));
}

#[test]
fn cooldown_boundary_is_ten_ticks() {
    assert_eq!(HIT_COOLDOWN_TICKS, 10);
    assert!(should_process_combat(InteractionKind::Attack, 10, 0, M, M));
    assert!(!should_process_combat(InteractionKind::Attack, 9, 0, M, M));
    assert!(!should_process_combat(InteractionKind::Attack, 100, 91, M, M));
    assert!(!should_process_combat(InteractionKind::Attack, 100, 100, M, M));
    assert!(!should_process_combat(InteractionKind::Attack, 100, 200, M, M));
}

#[test]
fn only_attacks_are_hits() {
    assert!(!should_process_combat(InteractionKind::Interact, 100, 0, M, M));
    assert!(!should_process_combat(InteractionKind::InteractAt, 100, 0, M, M));
}

#[test]
fn matches_are_isolated() {
    assert!(!should_process_combat(InteractionKind::Attack, 100, 0, M, OTHER));
    assert!(!should_process_combat(InteractionKind::Attack, 100, 0, OTHER, M));
    assert!(!should_process_combat(InteractionKind::Attack, 100, 0, M, None));
    assert!(!should_process_combat(InteractionKind::Attack, 100, 0, None, M));
    assert!(!should_process_combat(InteractionKind::Attack, 100, 0, None, None));
}

#[test]
fn extreme_ticks_do_not_wrap() {
    assert!(should_process_combat(InteractionKind::Attack, i64::MAX, i64::MIN, M, M));
    assert!(!should_process_combat(InteractionKind::Attack, i64::MIN, i64::MAX, M, M));
    assert!(should_process_combat(InteractionKind::Attack, i64::MAX, i64::MAX - 10, M, M));
    assert!(!should_process_combat(InteractionKind::Attack, i64::MAX, i64::MAX - 9, M, M));
    assert!(!should_process_combat(InteractionKind::Attack, i64::MAX, i64::MAX, M, M));
    assert!(should_process_combat(InteractionKind::Attack, i64::MIN + 10, i64::MIN, M, M));
}

#[test]
fn team_variant_needs_two_sides() {
    assert!(should_process_combat_with_teams(InteractionKind::Attack, 100, 0, 0, 1, M, M));
    assert!(!should_process_combat_with_teams(InteractionKind::Attack, 100, 0, 1, 1, M, M));
    assert!(!should_process_combat_with_teams(InteractionKind::Attack, 100, 95, 0, 1, M, M));
    assert!(!should_process_combat_with_teams(InteractionKind::Attack, 100, 0, 0, 1, M, OTHER));
    assert!(!should_process_combat_with_teams(InteractionKind::Attack, 100, 0, 0, 1, None, None));
    assert!(!should_process_combat_with_teams(InteractionKind::Interact, 100, 0, 0, 1, M, M));
}

#[test]
fn knockback_profiles_are_exact() {
    assert_eq!(knockback_profile(false), Knockback { horizontal: 8000, vertical: 6432 });
    assert_eq!(knockback_profile(true), Knockback { horizontal: 18000, vertical: 8432 });
}

#[test]
fn knockback_profiles_match_the_decimal_figures() {
    let base = knockback_profile(false);
    let boosted = knockback_profile(true);
    assert_eq!(base.horizontal as f32 / 1000.0, 8.0f32);
    assert_eq!(base.vertical as f32 / 1000.0, 6.432f32);
    assert_eq!(boosted.horizontal as f32 / 1000.0, 18.0f32);
    assert_eq!(boosted.vertical as f32 / 1000.0, 8.432f32);
}

#[test]
fn a_hit_fires_each_cue_once_then_the_push() {
    let a = EntityId(1);
    let v = EntityId(2);
    let actions = apply_combat_effects(a, true, v);
    assert_eq!(
        actions,
        vec![
            Action::HurtSound { listener: v, source: v },
            Action::DamageTilt { viewer: v, subject: v },
            Action::HurtSound { listener: a, source: v },
            Action::DamageTilt { viewer: a, subject: v },
            Action::Launch {
                attacker: a,
                victim: v,
                strength: Knockback { horizontal: 18000, vertical: 8432 },
            },
        ]
    );
    let plain = apply_combat_effects(a, false, v);
    assert_eq!(plain.len(), 5);
    assert_eq!(
        plain[4],
        Action::Launch {
            attacker: a,
            victim: v,
            strength: Knockback { horizontal: 8000, vertical: 6432 },
        }
    );
    assert_eq!(plain[..4], actions[..4]);
}

#[test]
fn combat_state_is_its_own_record() {
    let mut state = CombatState { last_attacked_tick: 5, has_bonus_knockback: false };
    state.get_combat_state().has_bonus_knockback = true;
    assert_eq!(state, CombatState { last_attacked_tick: 5, has_bonus_knockback: true });
}

#[test]
fn defaults_are_the_baseline() {
    assert_eq!(
        CombatState::default(),
        CombatState { last_attacked_tick: 0, has_bonus_knockback: false }
    );
    assert_eq!(CombatState::new(), CombatState::default());
    assert_eq!(PlayerGameState::default(), PlayerGameState { match_id: None, team: 0 });
    assert_eq!(PlayerGameState::new(), PlayerGameState::default());
}

fn store_of(ids: &[u64]) -> Roster<CombatState> {
    let mut roster = Roster::new();
    for id in ids {
        assert!(roster.enroll(
            EntityId(*id),
            CombatState { last_attacked_tick: *id as i64, has_bonus_knockback: false }
        ));
    }
    roster
}

#[test]
fn sprint_start_sets_and_stop_clears_the_bonus() {
    let mut roster = store_of(&[1, 2]);
    handle_sprint_events(&vec![SprintEvent { entity: EntityId(1), started: true }], &mut roster);
    assert!(roster.get(EntityId(1)).unwrap().has_bonus_knockback);
    assert!(!roster.get(EntityId(2)).unwrap().has_bonus_knockback);
    assert_eq!(roster.get(EntityId(1)).unwrap().last_attacked_tick, 1);
    handle_sprint_events(&vec![SprintEvent { entity: EntityId(1), started: false }], &mut roster);
    assert!(!roster.get(EntityId(1)).unwrap().has_bonus_knockback);
}

#[test]
fn last_sprint_event_of_a_tick_decides() {
    let mut roster = store_of(&[1, 2]);
    let events = vec![
        SprintEvent { entity: EntityId(1), started: true },
        SprintEvent { entity: EntityId(2), started: true },
        SprintEvent { entity: EntityId(1), started: false },
    ];
    handle_sprint_events(&events, &mut roster);
    assert!(!roster.get(EntityId(1)).unwrap().has_bonus_knockback);
    assert!(roster.get(EntityId(2)).unwrap().has_bonus_knockback);
}

#[test]
fn sprint_event_for_unknown_entity_is_skipped() {
    let mut roster = store_of(&[1]);
    handle_sprint_events(&vec![SprintEvent { entity: EntityId(9), started: true }], &mut roster);
    assert!(!roster.contains(EntityId(9)));
    assert_eq!(
        roster.get(EntityId(1)),
        Some(&CombatState { last_attacked_tick: 1, has_bonus_knockback: false })
    );
    let mut empty: Roster<CombatState> = Roster::new();
    handle_sprint_events(&vec![SprintEvent { entity: EntityId(1), started: true }], &mut empty);
    assert!(!empty.contains(EntityId(1)));
}

#[test]
fn roster_keeps_one_record_per_handle() {
    let mut roster: Roster<u32> = Roster::new();
    assert!(!roster.contains(EntityId(1)));
    assert_eq!(roster.get(EntityId(1)), None);
    assert!(roster.enroll(EntityId(1), 10));
    assert!(roster.enroll(EntityId(2), 20));
    assert!(!roster.enroll(EntityId(1), 11));
    assert_eq!(roster.get(EntityId(1)), Some(&10));
    assert!(roster.set(EntityId(1), 12));
    assert!(!roster.set(EntityId(3), 30));
    assert_eq!(roster.get(EntityId(1)), Some(&12));
    assert_eq!(roster.get(EntityId(3)), None);
    *roster.get_mut(EntityId(2)).unwrap() += 1;
    assert_eq!(roster.get(EntityId(2)), Some(&21));
    assert!(roster.get_mut(EntityId(3)).is_none());
    assert_eq!(roster.dismiss(EntityId(1)), Some(12));
    assert_eq!(roster.dismiss(EntityId(1)), None);
    assert!(!roster.contains(EntityId(1)));
    assert_eq!(roster.get(EntityId(2)), Some(&21));
    assert!(roster.enroll(EntityId(1), 13));
    assert_eq!(roster.get(EntityId(1)), Some(&13));
}
