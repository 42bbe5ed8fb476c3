use warp::switch::{
    button_collisons, CollisionEvent, Switch, SwitchPressedEvent, SwitchState,
};

fn one_switch() -> Vec<Switch> {
    vec![Switch::new(7, "switch-a".to_string())]
}

#[test]
fn first_contact_presses_the_switch() {
    let mut switches = one_switch();
    let out = button_collisons(&mut switches, &vec![CollisionEvent::Started(7, 99)]);
    assert_eq!(switches[0].collisions, 1);
    assert_eq!(out, vec![SwitchPressedEvent(7, SwitchState::Pressed)]);
}

#[test]
fn overlapping_contacts_press_only_once_and_release_only_when_all_clear() {
    let mut switches = one_switch();
    let events = vec![
        CollisionEvent::Started(7, 100),
        CollisionEvent::Started(101, 7),
        CollisionEvent::Stopped(7, 100),
        CollisionEvent::Stopped(101, 7),
    ];
    let out = button_collisons(&mut switches, &events);
    assert_eq!(switches[0].collisions, 0);
    assert_eq!(
        out,
        vec![
            SwitchPressedEvent(7, SwitchState::Pressed),
            SwitchPressedEvent(7, SwitchState::Released),
        ]
    );
}

#[test]
fn extra_stop_event_clamps_at_zero_and_emits_nothing() {
    let mut switches = one_switch();
    let out = button_collisons(&mut switches, &vec![CollisionEvent::Stopped(7, 50)]);
    assert_eq!(switches[0].collisions, 0);
    assert!(out.is_empty());
}

#[test]
fn unrelated_collisions_are_ignored() {
    let mut switches = one_switch();
    let out = button_collisons(
        &mut switches,
        &vec![CollisionEvent::Started(1, 2), CollisionEvent::Stopped(3, 4)],
    );
    assert_eq!(switches[0].collisions, 0);
    assert!(out.is_empty());
}

#[test]
fn one_contact_touching_two_switches_presses_both_in_order() {
    let mut switches = vec![
        Switch::new(1, "switch-a".to_string()),
        Switch::new(2, "switch-b".to_string()),
    ];
    let out = button_collisons(&mut switches, &vec![CollisionEvent::Started(1, 2)]);
    assert_eq!(switches[0].collisions, 1);
    assert_eq!(switches[1].collisions, 1);
    assert_eq!(
        out,
        vec![
            SwitchPressedEvent(1, SwitchState::Pressed),
            SwitchPressedEvent(2, SwitchState::Pressed),
        ]
    );
}

#[test]
fn pressed_state_and_sprite_follow_the_count() {
    let mut s = Switch::new(5, "switch-a".to_string());
    assert!(!s.pressed());
    assert_eq!(s.sprite_index(), 0);
    s.collisions = 2;
    assert!(s.pressed());
    assert_eq!(s.sprite_index(), 1);
}
