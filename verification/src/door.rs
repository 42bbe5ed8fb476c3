use vstd::prelude::*;
use crate::level_data::{AuthoringError, EntityInstance, FieldValue};
use crate::level_data::{find_field, lookup_field};
use crate::switch::{Switch, SwitchPressedEvent, SwitchState};

verus! {

/// Marker for the door subsystem.
pub struct DoorPlugin;

/// How a door combines its wired switches: any pressed switch opens it, or
/// all of them must be pressed.
#[derive(Debug, Clone, Copy, PartialEq, Eq, Structural)]
pub enum DoorControl {
    Or,
    And,
}

/// A door: its stable entity id, the switch entities it is wired to, its
/// control mode, and the wired switches currently pressed.
#[derive(Debug, PartialEq)]
pub struct Door {
    pub entity: u64,
    pub switches: Vec<u64>,
    pub control: DoorControl,
    pub pressed: Vec<u64>,
}

/// What the frame applies to a door after its openness is recomputed: the
/// sprite frame to show, and whether its solid collider is removed (open) or
/// installed (closed). Both are idempotent.
#[derive(Debug, Clone, Copy, PartialEq, Eq, Structural)]
pub struct DoorUpdate {
    pub sprite_index: usize,
    pub remove_collider: bool,
}

impl Door {
    /// Well-formed: the pressed list holds no duplicates and only wired
    /// switches.
    pub open spec fn wf(self) -> bool {
        &&& forall|i: int, j: int|
            0 <= i < j < self.pressed@.len() ==> self.pressed@[i] != self.pressed@[j]
        &&& forall|i: int|
            0 <= i < self.pressed@.len() ==> self.switches@.contains(#[trigger] self.pressed@[i])
    }

    /// The door is open: under Or when any wired switch is pressed, under And
    /// when every wired switch is pressed. (A door wired to no switches is
    /// vacuously open under And.)
    pub open spec fn is_open(self) -> bool {
        match self.control {
            DoorControl::Or => self.pressed@.len() > 0,
            DoorControl::And => self.pressed@.len() == self.switches@.len(),
        }
    }
}

/// The name of the entity field that holds a door's control mode.
pub open spec fn door_control_field() -> Seq<char> {
    "DoorControl"@
}

/// The name of the entity field that lists a door's switches.
pub open spec fn switches_field() -> Seq<char> {
    "Switches"@
}

/// The control mode a door field value denotes, if any.
pub open spec fn control_of(v: Option<FieldValue>) -> Option<DoorControl> {
    match v {
        Some(FieldValue::EnumVal(Some(s))) => if s@ == "Or"@ {
            Some(DoorControl::Or)
        } else if s@ == "And"@ {
            Some(DoorControl::And)
        } else {
            None
        },
        _ => None,
    }
}

impl Door {
    /// Build a door from its imported entity record: read the control mode
    /// from the "DoorControl" enum field. The wiring is resolved separately,
    /// once the level's switches are known. A missing field, an unset value
    /// or an unknown mode is a fatal authoring error.
    pub fn new(entity: u64, instance: &EntityInstance) -> (r: Result<Door, AuthoringError>)
        ensures
            match r {
                Ok(d) => {
                    &&& control_of(find_field(instance.field_instances@, door_control_field()))
                        == Some(d.control)
                    &&& d.entity == entity
                    &&& d.switches@.len() == 0
                    &&& d.pressed@.len() == 0
                    &&& d.wf()
                },
                Err(AuthoringError::MissingField) => find_field(
                    instance.field_instances@,
                    door_control_field(),
                ) is None,
                Err(AuthoringError::WrongFieldType) => find_field(
                    instance.field_instances@,
                    door_control_field(),
                ) is Some && control_of(
                    find_field(instance.field_instances@, door_control_field()),
                ) is None,
                Err(_) => false,
            },
    {
        let needle = "DoorControl".to_string();
        let or_name = "Or".to_string();
        let and_name = "And".to_string();
        match lookup_field(&instance.field_instances, &needle) {
            None => Err(AuthoringError::MissingField),
            Some(f) => match &f.value {
                FieldValue::EnumVal(Some(s)) => {
                    if *s == or_name {
                        Ok(Door { entity, switches: Vec::new(), control: DoorControl::Or, pressed: Vec::new() })
                    } else if *s == and_name {
                        Ok(Door { entity, switches: Vec::new(), control: DoorControl::And, pressed: Vec::new() })
                    } else {
                        Err(AuthoringError::WrongFieldType)
                    }
                }
                _ => Err(AuthoringError::WrongFieldType),
            },
        }
    }
}

/// Recompute what a door shows and whether it blocks: an open door shows
/// sprite frame 3 and loses its solid collider; a closed one shows frame 0
/// and gets the collider (re-)installed.
pub fn opening_door(door: &Door) -> (u: DoorUpdate)
    ensures
        u.sprite_index == if door.is_open() {
            3int
        } else {
            0int
        },
        u.remove_collider == door.is_open(),
{
    let is_open = match door.control {
        DoorControl::Or => door.pressed.len() > 0,
        DoorControl::And => door.pressed.len() == door.switches.len(),
    };
    if is_open {
        DoorUpdate { sprite_index: 3, remove_collider: true }
    } else {
        DoorUpdate { sprite_index: 0, remove_collider: false }
    }
}

/// The entity of the first switch with the given authoring identifier.
pub open spec fn switch_with_iid(switches: Seq<Switch>, iid: Seq<char>) -> Option<u64>
    decreases switches.len(),
{
    if switches.len() == 0 {
        None
    } else if switches[0].iid@ == iid {
        Some(switches[0].entity)
    } else {
        switch_with_iid(switches.skip(1), iid)
    }
}

/// A switch list whose first `k` entries do not carry the identifier finds
/// the same switch as its remainder.
proof fn lemma_switch_with_iid_skip(switches: Seq<Switch>, iid: Seq<char>, k: int)
    requires
        0 <= k <= switches.len(),
        forall|j: int| 0 <= j < k ==> (#[trigger] switches[j]).iid@ != iid,
    ensures
        switch_with_iid(switches, iid) == switch_with_iid(switches.skip(k), iid),
    decreases k,
{
    if k > 0 {
        assert(switches[0].iid@ != iid);
        lemma_switch_with_iid_skip(switches.skip(1), iid, k - 1);
        assert(switches.skip(1).skip(k - 1) =~= switches.skip(k));
    } else {
        assert(switches.skip(0) =~= switches);
    }
}

/// Find a switch by authoring identifier: the first match, if any.
fn find_switch(switches: &Vec<Switch>, iid: &String) -> (r: Option<u64>)
    ensures
        r == switch_with_iid(switches@, iid@),
{
    let mut i: usize = 0;
    while i < switches.len()
        invariant
            0 <= i <= switches@.len(),
            forall|j: int| 0 <= j < i ==> (#[trigger] switches@[j]).iid@ != iid@,
        decreases switches@.len() - i,
    {
        if switches[i].iid == *iid {
            proof {
                lemma_switch_with_iid_skip(switches@, iid@, i as int);
                assert(switches@.skip(i as int)[0] == switches@[i as int]);
            }
            return Some(switches[i].entity);
        }
        i = i + 1;
    }
    proof {
        lemma_switch_with_iid_skip(switches@, iid@, switches@.len() as int);
    }
    None
}

/// The wired switch entities a reference list resolves to: unset slots are
/// skipped, and a reference to no known switch resolves nothing at all.
pub open spec fn resolve_refs(refs: Seq<Option<String>>, switches: Seq<Switch>) -> Option<Seq<u64>>
    decreases refs.len(),
{
    if refs.len() == 0 {
        Some(Seq::empty())
    } else {
        match refs[0] {
            None => resolve_refs(refs.skip(1), switches),
            Some(riid) => match switch_with_iid(switches, riid@) {
                None => None,
                Some(ent) => match resolve_refs(refs.skip(1), switches) {
                    None => None,
                    Some(s) => Some(seq![ent] + s),
                },
            },
        }
    }
}

/// Resolve a door's wiring: read the "Switches" entity-reference field of its
/// imported record and match every reference against the level's switches by
/// identifier. A missing field, a field of another type, or a reference that
/// resolves to no switch is a fatal authoring error, and the door is left
/// unchanged.
#[verifier::loop_isolation(false)]
pub fn link_door_inputs(
    door: &mut Door,
    instance: &EntityInstance,
    switches: &Vec<Switch>,
) -> (r: Result<(), AuthoringError>)
    requires
        old(door).pressed@.len() == 0,
    ensures
        final(door).entity == old(door).entity,
        final(door).control == old(door).control,
        final(door).pressed == old(door).pressed,
        final(door).wf(),
        match r {
            Ok(()) => match find_field(instance.field_instances@, switches_field()) {
                Some(FieldValue::EntityRefs(refs)) => resolve_refs(refs@, switches@) == Some(
                    final(door).switches@,
                ),
                _ => false,
            },
            Err(AuthoringError::MissingField) => find_field(
                instance.field_instances@,
                switches_field(),
            ) is None && final(door).switches == old(door).switches,
            Err(AuthoringError::WrongFieldType) => (match find_field(
                instance.field_instances@,
                switches_field(),
            ) {
                Some(FieldValue::EntityRefs(_)) => false,
                Some(_) => true,
                None => false,
            }) && final(door).switches == old(door).switches,
            Err(AuthoringError::UnresolvedReference) => (match find_field(
                instance.field_instances@,
                switches_field(),
            ) {
                Some(FieldValue::EntityRefs(refs)) => resolve_refs(refs@, switches@) is None,
                _ => false,
            }) && final(door).switches == old(door).switches,
            Err(_) => false,
        },
{
    let needle = "Switches".to_string();
    match lookup_field(&instance.field_instances, &needle) {
        None => Err(AuthoringError::MissingField),
        Some(f) => match &f.value {
            FieldValue::EntityRefs(refs) => {
                let mut resolved: Vec<u64> = Vec::new();
                proof {
                    assert(refs@.skip(0) =~= refs@);
                    if let Some(s) = resolve_refs(refs@, switches@) {
                        assert(resolved@ + s =~= s);
                    }
                }
                let mut i: usize = 0;
                while i < refs.len()
                    invariant
                        0 <= i <= refs@.len(),
                        resolve_refs(refs@, switches@) == match resolve_refs(
                            refs@.skip(i as int),
                            switches@,
                        ) {
                            None => None::<Seq<u64>>,
                            Some(s) => Some(resolved@ + s),
                        },
                    decreases refs@.len() - i,
                {
                    proof {
                        assert(refs@.skip(i as int)[0] == refs@[i as int]);
                        assert(refs@.skip(i as int).skip(1) =~= refs@.skip(i as int + 1));
                    }
                    match &refs[i] {
                        None => {}
                        Some(riid) => {
                            match find_switch(switches, riid) {
                                Some(ent) => {
                                    let ghost res0 = resolved@;
                                    resolved.push(ent);
                                    proof {
                                        if let Some(s) = resolve_refs(
                                            refs@.skip(i as int + 1),
                                            switches@,
                                        ) {
                                            assert(res0 + (seq![ent] + s) =~= resolved@ + s);
                                        }
                                    }
                                }
                                None => {
                                    return Err(AuthoringError::UnresolvedReference);
                                }
                            }
                        }
                    }
                    i = i + 1;
                }
                proof {
                    assert(refs@.skip(refs@.len() as int) =~= Seq::<Option<String>>::empty());
                    assert(resolved@ + Seq::<u64>::empty() =~= resolved@);
                }
                door.switches = resolved;
                Ok(())
            }
            _ => Err(AuthoringError::WrongFieldType),
        },
    }
}

/// A door's pressed list after one switch event: a pressed event for a wired
/// switch adds it once (a duplicate is a no-op), a released event removes it
/// (absent is a no-op); events for unwired switches are ignored.
pub open spec fn pressed_after(pressed: Seq<u64>, wired: Seq<u64>, ev: SwitchPressedEvent) -> Seq<
    u64,
> {
    if !wired.contains(ev.0) {
        pressed
    } else {
        match ev.1 {
            SwitchState::Pressed => if pressed.contains(ev.0) {
                pressed
            } else {
                pressed.push(ev.0)
            },
            SwitchState::Released => pressed.remove_value(ev.0),
        }
    }
}

/// A door's pressed list after a sequence of switch events, in order.
pub open spec fn pressed_after_events(
    pressed: Seq<u64>,
    wired: Seq<u64>,
    evs: Seq<SwitchPressedEvent>,
) -> Seq<u64>
    decreases evs.len(),
{
    if evs.len() == 0 {
        pressed
    } else {
        pressed_after_events(pressed_after(pressed, wired, evs[0]), wired, evs.skip(1))
    }
}

/// Appending one event to the fold applies it last.
proof fn lemma_pressed_after_events_snoc(
    pressed: Seq<u64>,
    wired: Seq<u64>,
    evs: Seq<SwitchPressedEvent>,
    ev: SwitchPressedEvent,
)
    ensures
        pressed_after_events(pressed, wired, evs.push(ev)) == pressed_after(
            pressed_after_events(pressed, wired, evs),
            wired,
            ev,
        ),
    decreases evs.len(),
{
    let full = evs.push(ev);
    if evs.len() == 0 {
        assert(full[0] == ev);
        assert(full.skip(1) =~= Seq::<SwitchPressedEvent>::empty());
        assert(pressed_after_events(pressed, wired, full) == pressed_after_events(
            pressed_after(pressed, wired, ev),
            wired,
            full.skip(1),
        ));
        assert(pressed_after_events(pressed_after(pressed, wired, ev), wired, full.skip(1))
            == pressed_after(pressed, wired, ev));
    } else {
        assert(full[0] == evs[0]);
        assert(full.skip(1) =~= evs.skip(1).push(ev));
        lemma_pressed_after_events_snoc(pressed_after(pressed, wired, evs[0]), wired, evs.skip(1), ev);
        assert(pressed_after_events(pressed, wired, full) == pressed_after_events(
            pressed_after(pressed, wired, evs[0]),
            wired,
            full.skip(1),
        ));
        assert(pressed_after_events(pressed, wired, evs) == pressed_after_events(
            pressed_after(pressed, wired, evs[0]),
            wired,
            evs.skip(1),
        ));
    }
}

/// Whether the id occurs in the list.
fn contains_id(v: &Vec<u64>, x: u64) -> (r: bool)
    ensures
        r == v@.contains(x),
{
    let mut i: usize = 0;
    while i < v.len()
        invariant
            0 <= i <= v@.len(),
            forall|j: int| 0 <= j < i ==> v@[j] != x,
        decreases v@.len() - i,
    {
        if v[i] == x {
            assert(v@.contains(x));
            return true;
        }
        i = i + 1;
    }
    false
}

/// The first position of the id in the list, if any.
fn first_index_of(v: &Vec<u64>, x: u64) -> (r: Option<usize>)
    ensures
        match r {
            Some(i) => i < v@.len() && v@[i as int] == x && forall|j: int| 0 <= j < i ==> v@[j] != x,
            None => !v@.contains(x),
        },
{
    let mut i: usize = 0;
    while i < v.len()
        invariant
            0 <= i <= v@.len(),
            forall|j: int| 0 <= j < i ==> v@[j] != x,
        decreases v@.len() - i,
    {
        if v[i] == x {
            return Some(i);
        }
        i = i + 1;
    }
    None
}

/// One door advanced by one switch event.
fn door_after_event(door: Door, ev: SwitchPressedEvent) -> (d: Door)
    requires
        door.wf(),
    ensures
        d.entity == door.entity,
        d.control == door.control,
        d.switches == door.switches,
        d.pressed@ == pressed_after(door.pressed@, door.switches@, ev),
        d.wf(),
{
    let mut door = door;
    let ghost p0 = door.pressed@;
    if contains_id(&door.switches, ev.0) {
        match ev.1 {
            SwitchState::Pressed => {
                if !contains_id(&door.pressed, ev.0) {
                    door.pressed.push(ev.0);
                }
            }
            SwitchState::Released => {
                match first_index_of(&door.pressed, ev.0) {
                    Some(i) => {
                        door.pressed.remove(i);
                        proof {
                            p0.index_of_first_ensures(ev.0);
                            assert(p0.contains(ev.0));
                            if let Some(idx) = p0.index_of_first(ev.0) {
                                if idx < i as int {
                                    assert(p0[idx] != ev.0);
                                }
                                if (i as int) < idx {
                                    assert(p0[i as int] != ev.0);
                                }
                                assert(idx == i as int);
                            }
                            assert(door.pressed@ == p0.remove_value(ev.0));
                        }
                    }
                    None => {
                        proof {
                            p0.index_of_first_ensures(ev.0);
                            assert(p0.remove_value(ev.0) == p0);
                        }
                    }
                }
            }
        }
    }
    proof {
        // the pressed list stays duplicate-free and wired
        let p1 = door.pressed@;
        assert forall|i: int, j: int| 0 <= i < j < p1.len() implies p1[i] != p1[j] by {
            if p1 == p0.push(ev.0) {
                assert(!p0.contains(ev.0));
                if j == p1.len() - 1 {
                    if p1[i] == p1[j] {
                        assert(p0[i] == ev.0);
                        assert(p0.contains(ev.0));
                    }
                }
            }
        }
        assert forall|i: int| 0 <= i < p1.len() implies door.switches@.contains(
            #[trigger] p1[i],
        ) by {
            if p1 == p0.push(ev.0) {
                if i == p1.len() - 1 {
                    assert(door.switches@.contains(ev.0));
                } else {
                    assert(door.switches@.contains(p0[i]));
                }
            }
        }
    }
    door
}

/// One door advanced by the frame's whole switch-event queue, in order.
fn door_after_events(door: Door, events: &Vec<SwitchPressedEvent>) -> (d: Door)
    requires
        door.wf(),
    ensures
        d.entity == door.entity,
        d.control == door.control,
        d.switches == door.switches,
        d.pressed@ == pressed_after_events(door.pressed@, door.switches@, events@),
        d.wf(),
{
    let ghost p0 = door.pressed@;
    let ghost w0 = door.switches@;
    let ghost ent0 = door.entity;
    let ghost ctl0 = door.control;
    let ghost swv0 = door.switches;
    let mut door = door;
    let mut e: usize = 0;
    while e < events.len()
        invariant
            0 <= e <= events@.len(),
            door.entity == ent0,
            door.control == ctl0,
            door.switches == swv0,
            door.wf(),
            door.switches@ == w0,
            door.pressed@ == pressed_after_events(p0, w0, events@.take(e as int)),
        decreases events@.len() - e,
    {
        door = door_after_event(door, events[e]);
        proof {
            lemma_pressed_after_events_snoc(p0, w0, events@.take(e as int), events@[e as int]);
            assert(events@.take(e as int).push(events@[e as int]) =~= events@.take(e as int + 1));
        }
        e = e + 1;
    }
    proof {
        assert(events@.take(events@.len() as int) =~= events@);
    }
    door
}

/// Route the frame's switch events to every door: a pressed/released event
/// for a wired switch updates that door's pressed list; doors advance
/// independently, each over the whole event queue in order.
#[verifier::loop_isolation(false)]
pub fn track_door_switches(doors: &mut Vec<Door>, events: &Vec<SwitchPressedEvent>)
    requires
        forall|d: int| 0 <= d < old(doors)@.len() ==> (#[trigger] old(doors)@[d]).wf(),
    ensures
        final(doors)@.len() == old(doors)@.len(),
        forall|d: int|
            0 <= d < old(doors)@.len() ==> {
                let before = #[trigger] old(doors)@[d];
                let after = #[trigger] final(doors)@[d];
                &&& after.entity == before.entity
                &&& after.control == before.control
                &&& after.switches == before.switches
                &&& after.pressed@ == pressed_after_events(
                    before.pressed@,
                    before.switches@,
                    events@,
                )
                &&& after.wf()
            },
{
    let ghost d0 = doors@;
    let mut updated: Vec<Door> = Vec::new();
    while doors.len() > 0
        invariant
            updated@.len() + doors@.len() == d0.len(),
            forall|k: int| 0 <= k < doors@.len() ==> doors@[k] == d0[updated@.len() + k],
            forall|k: int|
                0 <= k < updated@.len() ==> {
                    let before = d0[k];
                    let after = #[trigger] updated@[k];
                    &&& after.entity == before.entity
                    &&& after.control == before.control
                    &&& after.switches == before.switches
                    &&& after.pressed@ == pressed_after_events(
                        before.pressed@,
                        before.switches@,
                        events@,
                    )
                    &&& after.wf()
                },
        decreases doors@.len(),
    {
        let door = doors.remove(0);
        proof {
            assert(door == d0[updated@.len() as int]);
        }
        let door = door_after_events(door, events);
        updated.push(door);
    }
    *doors = updated;
}

impl DoorPlugin {
    /// The door subsystem's passes for one frame, consumers after producers:
    /// switch-event routing first, openness second.
    pub fn step(doors: &mut Vec<Door>, events: &Vec<SwitchPressedEvent>) -> (updates: Vec<
        DoorUpdate,
    >)
        requires
            forall|d: int| 0 <= d < old(doors)@.len() ==> (#[trigger] old(doors)@[d]).wf(),
        ensures
            final(doors)@.len() == old(doors)@.len(),
            forall|d: int|
                0 <= d < old(doors)@.len() ==> {
                    let before = #[trigger] old(doors)@[d];
                    let after = #[trigger] final(doors)@[d];
                    &&& after.entity == before.entity
                    &&& after.control == before.control
                    &&& after.switches == before.switches
                    &&& after.pressed@ == pressed_after_events(
                        before.pressed@,
                        before.switches@,
                        events@,
                    )
                    &&& after.wf()
                },
            updates@.len() == final(doors)@.len(),
            forall|d: int|
                0 <= d < updates@.len() ==> {
                    let u = #[trigger] updates@[d];
                    &&& u.sprite_index == if final(doors)@[d].is_open() {
                        3int
                    } else {
                        0int
                    }
                    &&& u.remove_collider == final(doors)@[d].is_open()
                },
    {
        track_door_switches(doors, events);
        let mut updates: Vec<DoorUpdate> = Vec::new();
        let mut d: usize = 0;
        while d < doors.len()
            invariant
                0 <= d <= doors@.len(),
                updates@.len() == d as int,
                forall|k: int|
                    0 <= k < d as int ==> {
                        let u = #[trigger] updates@[k];
                        &&& u.sprite_index == if doors@[k].is_open() {
                            3int
                        } else {
                            0int
                        }
                        &&& u.remove_collider == doors@[k].is_open()
                    },
            decreases doors@.len() - d,
        {
            let u = opening_door(&doors[d]);
            updates.push(u);
            d = d + 1;
        }
        updates
    }
}

} // verus!
