use warp::door::{
    link_door_inputs, opening_door, track_door_switches, Door, DoorControl, DoorPlugin,
};
use warp::level_data::{AuthoringError, EntityInstance, FieldInstance, FieldValue};
use warp::switch::{Switch, SwitchPressedEvent, SwitchState};

const A: u64 = 1;
const B: u64 = 2;

fn door(control: DoorControl) -> Door {
    Door { entity: 10, switches: vec![A, B], control, pressed: Vec::new() }
}

fn pressed(s: u64) -> SwitchPressedEvent {
    SwitchPressedEvent(s, SwitchState::Pressed)
}

fn released(s: u64) -> SwitchPressedEvent {
    SwitchPressedEvent(s, SwitchState::Released)
}

#[test]
fn or_door_opens_on_one_switch_and_closes_when_it_releases() {
    let mut doors = vec![door(DoorControl::Or)];
    track_door_switches(&mut doors, &vec![pressed(A)]);
    assert_eq!(doors[0].pressed, vec![A]);
    let u = opening_door(&doors[0]);
    assert_eq!(u.sprite_index, 3);
    assert!(u.remove_collider);

    track_door_switches(&mut doors, &vec![released(A)]);
    assert!(doors[0].pressed.is_empty());
    let u = opening_door(&doors[0]);
    assert_eq!(u.sprite_index, 0);
    assert!(!u.remove_collider);
}

#[test]
fn and_door_needs_every_switch_and_closes_when_either_releases() {
    let mut doors = vec![door(DoorControl::And)];
    track_door_switches(&mut doors, &vec![pressed(A)]);
    assert!(!opening_door(&doors[0]).remove_collider);

    track_door_switches(&mut doors, &vec![pressed(B)]);
    assert!(opening_door(&doors[0]).remove_collider);

    track_door_switches(&mut doors, &vec![released(B)]);
    assert!(!opening_door(&doors[0]).remove_collider);
}

#[test]
fn duplicate_press_is_idempotent() {
    let mut doors = vec![door(DoorControl::Or)];
    track_door_switches(&mut doors, &vec![pressed(A), pressed(A)]);
    assert_eq!(doors[0].pressed, vec![A]);
    track_door_switches(&mut doors, &vec![released(A)]);
    assert!(doors[0].pressed.is_empty());
    assert!(!opening_door(&doors[0]).remove_collider);
}

#[test]
fn release_of_an_unpressed_switch_is_a_no_op() {
    let mut doors = vec![door(DoorControl::Or)];
    track_door_switches(&mut doors, &vec![released(B)]);
    assert!(doors[0].pressed.is_empty());
}

#[test]
fn events_for_unwired_switches_are_ignored() {
    let mut doors = vec![door(DoorControl::Or)];
    track_door_switches(&mut doors, &vec![pressed(33)]);
    assert!(doors[0].pressed.is_empty());
    assert!(!opening_door(&doors[0]).remove_collider);
}

#[test]
fn and_door_with_no_wired_switches_is_vacuously_open() {
    let d = Door { entity: 10, switches: Vec::new(), control: DoorControl::And, pressed: Vec::new() };
    assert!(opening_door(&d).remove_collider);
}

fn door_instance(value: FieldValue) -> EntityInstance {
    EntityInstance {
        iid: "door-1".to_string(),
        field_instances: vec![FieldInstance { identifier: "DoorControl".to_string(), value }],
    }
}

#[test]
fn door_control_parses_or_and_and() {
    let or_door =
        Door::new(10, &door_instance(FieldValue::EnumVal(Some("Or".to_string())))).unwrap();
    assert_eq!(or_door.control, DoorControl::Or);
    let and_door =
        Door::new(10, &door_instance(FieldValue::EnumVal(Some("And".to_string())))).unwrap();
    assert_eq!(and_door.control, DoorControl::And);
    assert!(and_door.switches.is_empty());
    assert!(and_door.pressed.is_empty());
}

#[test]
fn door_without_control_field_is_an_authoring_error() {
    let instance = EntityInstance { iid: "door-1".to_string(), field_instances: Vec::new() };
    assert_eq!(Door::new(10, &instance), Err(AuthoringError::MissingField));
}

#[test]
fn unknown_or_unset_control_value_is_an_authoring_error() {
    let unknown = door_instance(FieldValue::EnumVal(Some("Xor".to_string())));
    assert_eq!(Door::new(10, &unknown), Err(AuthoringError::WrongFieldType));
    let unset = door_instance(FieldValue::EnumVal(None));
    assert_eq!(Door::new(10, &unset), Err(AuthoringError::WrongFieldType));
    let wrong_type = door_instance(FieldValue::EntityRefs(Vec::new()));
    assert_eq!(Door::new(10, &wrong_type), Err(AuthoringError::WrongFieldType));
}

fn switches_in_level() -> Vec<Switch> {
    vec![Switch::new(A, "iid-a".to_string()), Switch::new(B, "iid-b".to_string())]
}

fn wired_instance(refs: Vec<Option<String>>) -> EntityInstance {
    EntityInstance {
        iid: "door-1".to_string(),
        field_instances: vec![FieldInstance {
            identifier: "Switches".to_string(),
            value: FieldValue::EntityRefs(refs),
        }],
    }
}

#[test]
fn wiring_resolves_references_in_order_skipping_unset_slots() {
    let mut d = door(DoorControl::Or);
    d.switches = Vec::new();
    let instance =
        wired_instance(vec![Some("iid-b".to_string()), None, Some("iid-a".to_string())]);
    link_door_inputs(&mut d, &instance, &switches_in_level()).unwrap();
    assert_eq!(d.switches, vec![B, A]);
}

#[test]
fn unresolved_reference_is_an_authoring_error() {
    let mut d = door(DoorControl::Or);
    let instance = wired_instance(vec![Some("iid-zzz".to_string())]);
    d.switches = Vec::new();
    assert_eq!(
        link_door_inputs(&mut d, &instance, &switches_in_level()),
        Err(AuthoringError::UnresolvedReference)
    );
    assert!(d.switches.is_empty());
}

#[test]
fn missing_or_mistyped_switches_field_is_an_authoring_error() {
    let mut d = door(DoorControl::Or);
    d.switches = Vec::new();
    let missing = EntityInstance { iid: "door-1".to_string(), field_instances: Vec::new() };
    assert_eq!(
        link_door_inputs(&mut d, &missing, &switches_in_level()),
        Err(AuthoringError::MissingField)
    );
    let mistyped = EntityInstance {
        iid: "door-1".to_string(),
        field_instances: vec![FieldInstance {
            identifier: "Switches".to_string(),
            value: FieldValue::EnumVal(Some("Or".to_string())),
        }],
    };
    assert_eq!(
        link_door_inputs(&mut d, &mistyped, &switches_in_level()),
        Err(AuthoringError::WrongFieldType)
    );
}

#[test]
fn door_plugin_step_routes_events_and_recomputes_every_door() {
    let mut doors = vec![door(DoorControl::Or), door(DoorControl::And)];
    let updates = DoorPlugin::step(&mut doors, &vec![pressed(A)]);
    assert_eq!(updates.len(), 2);
    assert!(updates[0].remove_collider);
    assert_eq!(updates[0].sprite_index, 3);
    assert!(!updates[1].remove_collider);
    assert_eq!(updates[1].sprite_index, 0);
}
