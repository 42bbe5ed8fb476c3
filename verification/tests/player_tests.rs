use warp::player::{
    player_animation, player_movement, player_state_tracker, remove_past_when_not_preforming,
    spawn_past_player, update_ability, update_past_player, InputState, PastPlayerAction, Player,
    PlayerAbilityState, PlayerPastState, PlayerPastStates, PlayerPlugin, Tint,
};

fn no_input() -> InputState {
    InputState { up: false, down: false, left: false, right: false, ability: false }
}

fn entry(x: i64) -> PlayerPastState {
    PlayerPastState { x, y: 0, sprite_index: 0 }
}

#[test]
fn history_keeps_order_until_full() {
    let mut h = PlayerPastStates::new(3);
    h.push(entry(0));
    h.push(entry(1));
    h.push(entry(2));
    assert_eq!(h.entries, vec![entry(0), entry(1), entry(2)]);
}

#[test]
fn overfilling_history_evicts_exactly_the_oldest_entry() {
    let mut h = PlayerPastStates::new(3);
    for i in 0..4 {
        h.push(entry(i));
    }
    assert_eq!(h.entries, vec![entry(1), entry(2), entry(3)]);
}

#[test]
fn movement_sets_held_axes_and_keeps_released_ones() {
    let mut p = Player::new(0, 0);
    p.vel_x = 55;
    let input = InputState { up: true, ..no_input() };
    player_movement(&mut p, &input);
    assert_eq!(p.vel_y, 100);
    assert_eq!(p.vel_x, 55);
}

#[test]
fn opposed_directions_resolve_to_down_and_left() {
    let mut p = Player::new(0, 0);
    let input = InputState { up: true, down: true, left: true, right: true, ability: false };
    player_movement(&mut p, &input);
    assert_eq!(p.vel_y, -100);
    assert_eq!(p.vel_x, -100);
}

#[test]
fn held_direction_advances_its_frame_bank_at_the_interval() {
    let mut p = Player::new(0, 0);
    let left = InputState { left: true, ..no_input() };
    player_animation(&mut p, &left, 100);
    // the tick has not elapsed: bank base plus the current frame offset
    assert_eq!(p.sprite_index, 8);
    player_animation(&mut p, &left, 100);
    // 200 ms reached: the frame advances within the bank
    assert_eq!(p.sprite_index, 9);
    player_animation(&mut p, &left, 200);
    assert_eq!(p.sprite_index, 10);
}

#[test]
fn releasing_all_directions_snaps_to_the_banks_first_frame() {
    let mut p = Player::new(0, 0);
    p.sprite_index = 10;
    p.animation_timer.tick(200);
    player_animation(&mut p, &no_input(), 50);
    assert_eq!(p.sprite_index, 8);
}

#[test]
fn cooldown_tints_the_sprite_gray() {
    let mut p = Player::new(0, 0);
    p.ability_state = PlayerAbilityState::Cooldown;
    player_animation(&mut p, &no_input(), 10);
    assert_eq!(p.tint, Tint::Gray);
    p.ability_state = PlayerAbilityState::Idle;
    player_animation(&mut p, &no_input(), 10);
    assert_eq!(p.tint, Tint::White);
}

#[test]
fn state_tracker_samples_at_its_interval_only() {
    let mut p = Player::new(4, 5);
    player_state_tracker(&mut p, 49);
    assert!(p.past_states.entries.is_empty());
    player_state_tracker(&mut p, 1);
    assert_eq!(p.past_states.entries, vec![PlayerPastState { x: 4, y: 5, sprite_index: 0 }]);
}

fn ability_with_direction() -> InputState {
    InputState { up: true, ability: true, ..no_input() }
}

#[test]
fn ability_starts_only_with_a_direction_held() {
    let mut p = Player::new(0, 0);
    let ability_only = InputState { ability: true, ..no_input() };
    update_ability(&mut p, &ability_only, 16);
    assert_eq!(p.ability_state, PlayerAbilityState::Idle);
    update_ability(&mut p, &ability_with_direction(), 16);
    assert_eq!(p.ability_state, PlayerAbilityState::Performing);
}

#[test]
fn holding_the_ability_times_out_into_cooldown() {
    let mut p = Player::new(0, 0);
    update_ability(&mut p, &ability_with_direction(), 16);
    assert_eq!(p.ability_state, PlayerAbilityState::Performing);
    update_ability(&mut p, &ability_with_direction(), 2500);
    assert_eq!(p.ability_state, PlayerAbilityState::Performing);
    // 5000 ms of performing reached, direction still held
    update_ability(&mut p, &ability_with_direction(), 2500);
    assert_eq!(p.ability_state, PlayerAbilityState::Cooldown);
    assert_eq!(p.usage_timer.elapsed, 0);
}

#[test]
fn releasing_the_direction_ends_the_ability_into_cooldown() {
    let mut p = Player::new(0, 0);
    update_ability(&mut p, &ability_with_direction(), 16);
    let ability_only = InputState { ability: true, ..no_input() };
    update_ability(&mut p, &ability_only, 16);
    assert_eq!(p.ability_state, PlayerAbilityState::Cooldown);
}

#[test]
fn cooldown_ignores_input_until_its_timer_ends() {
    let mut p = Player::new(0, 0);
    p.ability_state = PlayerAbilityState::Cooldown;
    update_ability(&mut p, &ability_with_direction(), 1000);
    assert_eq!(p.ability_state, PlayerAbilityState::Cooldown);
    update_ability(&mut p, &ability_with_direction(), 1999);
    assert_eq!(p.ability_state, PlayerAbilityState::Cooldown);
    update_ability(&mut p, &ability_with_direction(), 1);
    assert_eq!(p.ability_state, PlayerAbilityState::Idle);
    assert_eq!(p.cooldown_timer.elapsed, 0);
}

#[test]
fn after_image_follows_the_oldest_history_entry_while_performing() {
    let mut p = Player::new(0, 0);
    assert_eq!(spawn_past_player(&p), None);
    p.past_states.push(entry(1));
    p.past_states.push(entry(2));
    assert_eq!(update_past_player(&p), Some(entry(1)));
    assert_eq!(spawn_past_player(&p), None);
    assert!(remove_past_when_not_preforming(&p));
    p.ability_state = PlayerAbilityState::Performing;
    assert_eq!(spawn_past_player(&p), Some(entry(1)));
    assert!(!remove_past_when_not_preforming(&p));
}

#[test]
fn player_plugin_step_spawns_the_after_image_on_entering_performing() {
    let mut p = Player::new(3, 4);
    // one full sample interval passes, so the history is non-empty when the
    // ability pass switches the state to Performing
    let action = PlayerPlugin::step(&mut p, &ability_with_direction(), 50);
    assert_eq!(p.ability_state, PlayerAbilityState::Performing);
    assert_eq!(action, PastPlayerAction::Spawn(PlayerPastState { x: 3, y: 4, sprite_index: 4 }));
    let action = PlayerPlugin::step(&mut p, &ability_with_direction(), 16);
    assert!(matches!(action, PastPlayerAction::Follow(_)));
    let idle = no_input();
    let action = PlayerPlugin::step(&mut p, &idle, 16);
    assert_eq!(p.ability_state, PlayerAbilityState::Cooldown);
    assert_eq!(action, PastPlayerAction::Despawn);
}
