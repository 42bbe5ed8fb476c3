use vstd::prelude::*;

verus! {

/// Marker for the switch subsystem.
pub struct SwitchPlugin;

/// The logical state a switch announces when its contact count crosses zero.
#[derive(Debug, Clone, Copy, PartialEq, Eq, Structural)]
pub enum SwitchState {
    Pressed,
    Released,
}

/// A logical switch event: the switch entity and its new state.
#[derive(Debug, Clone, Copy, PartialEq, Eq, Structural)]
pub struct SwitchPressedEvent(pub u64, pub SwitchState);

/// A collision event from the physics world: a contact between two entities
/// begins or ends.
#[derive(Debug, Clone, Copy, PartialEq, Eq, Structural)]
pub enum CollisionEvent {
    Started(u64, u64),
    Stopped(u64, u64),
}

/// A floor switch: its stable entity id, its authoring identifier, and the
/// count of colliders currently overlapping it. The switch is pressed while
/// the count is positive; the count is clamped at zero from below, guarding
/// against unpaired stop events.
pub struct Switch {
    pub entity: u64,
    pub iid: String,
    pub collisions: i32,
}

impl Switch {
    /// Well-formed: the contact count never goes negative.
    pub open spec fn wf(self) -> bool {
        self.collisions >= 0
    }

    /// A fresh switch with no contacts.
    pub fn new(entity: u64, iid: String) -> (s: Switch)
        ensures
            s.entity == entity,
            s.iid == iid,
            s.collisions == 0,
            s.wf(),
    {
        Switch { entity, iid, collisions: 0 }
    }

    /// The switch is pressed while at least one collider overlaps it.
    pub fn pressed(&self) -> (r: bool)
        ensures
            r == (self.collisions > 0),
    {
        self.collisions > 0
    }

    /// The sprite frame that shows the switch's state: 1 pressed, 0 released.
    pub fn sprite_index(&self) -> (r: usize)
        ensures
            r == if self.collisions > 0 {
                1int
            } else {
                0int
            },
    {
        if self.collisions > 0 {
            1
        } else {
            0
        }
    }
}

/// The collision event involves the given entity.
pub open spec fn touches(ev: CollisionEvent, entity: u64) -> bool {
    match ev {
        CollisionEvent::Started(a, b) => a == entity || b == entity,
        CollisionEvent::Stopped(a, b) => a == entity || b == entity,
    }
}

/// The contact count of a switch after one collision event: a start adds one
/// (saturating), a stop removes one but never drops below zero.
pub open spec fn count_after(count: int, ev: CollisionEvent, entity: u64) -> int {
    if !touches(ev, entity) {
        count
    } else {
        match ev {
            CollisionEvent::Started(_, _) => if count == i32::MAX as int {
                count
            } else {
                count + 1
            },
            CollisionEvent::Stopped(_, _) => if count > 0 {
                count - 1
            } else {
                0
            },
        }
    }
}

/// The logical event a switch emits for one collision event: pressed exactly
/// when the count steps from zero to positive, released exactly when it steps
/// from positive to zero.
pub open spec fn emitted(count: int, ev: CollisionEvent, entity: u64) -> Option<SwitchState> {
    if !touches(ev, entity) {
        None
    } else {
        match ev {
            CollisionEvent::Started(_, _) => if count == 0 {
                Some(SwitchState::Pressed)
            } else {
                None
            },
            CollisionEvent::Stopped(_, _) => if count == 1 {
                Some(SwitchState::Released)
            } else {
                None
            },
        }
    }
}

/// All switches advanced by one collision event.
pub open spec fn switches_after(sw: Seq<Switch>, ev: CollisionEvent) -> Seq<Switch> {
    sw.map_values(
        |s: Switch|
            Switch {
                entity: s.entity,
                iid: s.iid,
                collisions: count_after(s.collisions as int, ev, s.entity) as i32,
            },
    )
}

/// The logical events one collision event makes the switches emit, in switch
/// order.
pub open spec fn emissions_for(sw: Seq<Switch>, ev: CollisionEvent) -> Seq<SwitchPressedEvent>
    decreases sw.len(),
{
    if sw.len() == 0 {
        Seq::empty()
    } else {
        let head: Seq<SwitchPressedEvent> = match emitted(sw[0].collisions as int, ev, sw[0].entity) {
            Some(st) => seq![SwitchPressedEvent(sw[0].entity, st)],
            None => Seq::empty(),
        };
        head + emissions_for(sw.skip(1), ev)
    }
}

/// The switches and the emitted logical events after a whole sequence of
/// collision events, events processed in order.
pub open spec fn run_events(sw: Seq<Switch>, evs: Seq<CollisionEvent>) -> (Seq<Switch>, Seq<
    SwitchPressedEvent,
>)
    decreases evs.len(),
{
    if evs.len() == 0 {
        (sw, Seq::empty())
    } else {
        let out0 = emissions_for(sw, evs[0]);
        let rest = run_events(switches_after(sw, evs[0]), evs.skip(1));
        (rest.0, out0 + rest.1)
    }
}

/// Appending one event to a run processes it last.
proof fn lemma_run_events_snoc(sw: Seq<Switch>, evs: Seq<CollisionEvent>, ev: CollisionEvent)
    ensures
        run_events(sw, evs.push(ev)) == {
            let mid = run_events(sw, evs);
            (switches_after(mid.0, ev), mid.1 + emissions_for(mid.0, ev))
        },
    decreases evs.len(),
{
    let full = evs.push(ev);
    if evs.len() == 0 {
        assert(full.skip(1) =~= Seq::<CollisionEvent>::empty());
        assert(full[0] == ev);
        let mid = run_events(sw, evs);
        assert(mid.0 == sw && mid.1 =~= Seq::<SwitchPressedEvent>::empty());
        assert(run_events(switches_after(sw, ev), Seq::empty()).1
            =~= Seq::<SwitchPressedEvent>::empty());
        assert(emissions_for(sw, ev) + Seq::<SwitchPressedEvent>::empty() =~= emissions_for(sw, ev));
        assert(Seq::<SwitchPressedEvent>::empty() + emissions_for(sw, ev) =~= emissions_for(
            sw,
            ev,
        ));
    } else {
        assert(full[0] == evs[0]);
        assert(full.skip(1) =~= evs.skip(1).push(ev));
        lemma_run_events_snoc(switches_after(sw, evs[0]), evs.skip(1), ev);
        let mid = run_events(sw, evs);
        let mid1 = run_events(switches_after(sw, evs[0]), evs.skip(1));
        assert(emissions_for(sw, evs[0]) + (mid1.1 + emissions_for(mid1.0, ev)) =~= (emissions_for(
            sw,
            evs[0],
        ) + mid1.1) + emissions_for(mid1.0, ev));
    }
}

/// Appending one switch to the emission pass handles it last.
proof fn lemma_emissions_snoc(sw: Seq<Switch>, s: Switch, ev: CollisionEvent)
    ensures
        emissions_for(sw.push(s), ev) == emissions_for(sw, ev) + (match emitted(
            s.collisions as int,
            ev,
            s.entity,
        ) {
            Some(st) => seq![SwitchPressedEvent(s.entity, st)],
            None => Seq::<SwitchPressedEvent>::empty(),
        }),
    decreases sw.len(),
{
    let tail: Seq<SwitchPressedEvent> = match emitted(s.collisions as int, ev, s.entity) {
        Some(st) => seq![SwitchPressedEvent(s.entity, st)],
        None => Seq::empty(),
    };
    if sw.len() == 0 {
        assert(sw.push(s)[0] == s);
        assert(sw.push(s).skip(1) =~= Seq::<Switch>::empty());
        assert(emissions_for(Seq::<Switch>::empty(), ev) =~= Seq::<SwitchPressedEvent>::empty());
        assert(tail + Seq::<SwitchPressedEvent>::empty() =~= tail);
        assert(Seq::<SwitchPressedEvent>::empty() + tail =~= tail);
    } else {
        assert(sw.push(s)[0] == sw[0]);
        assert(sw.push(s).skip(1) =~= sw.skip(1).push(s));
        lemma_emissions_snoc(sw.skip(1), s, ev);
        let head: Seq<SwitchPressedEvent> = match emitted(
            sw[0].collisions as int,
            ev,
            sw[0].entity,
        ) {
            Some(st) => seq![SwitchPressedEvent(sw[0].entity, st)],
            None => Seq::empty(),
        };
        assert(head + (emissions_for(sw.skip(1), ev) + tail) =~= (head + emissions_for(
            sw.skip(1),
            ev,
        )) + tail);
    }
}

/// Drain the frame's collision events against the switches: adjust each
/// touched switch's contact count and collect the logical pressed/released
/// events exactly at its zero crossings.
#[verifier::loop_isolation(false)]
pub fn button_collisons(switches: &mut Vec<Switch>, events: &Vec<CollisionEvent>) -> (out: Vec<
    SwitchPressedEvent,
>)
    requires
        forall|i: int| 0 <= i < old(switches)@.len() ==> (#[trigger] old(switches)@[i]).wf(),
    ensures
        final(switches)@ == run_events(old(switches)@, events@).0,
        out@ == run_events(old(switches)@, events@).1,
        forall|i: int| 0 <= i < final(switches)@.len() ==> (#[trigger] final(switches)@[i]).wf(),
{
    let ghost sw0 = switches@;
    let mut out: Vec<SwitchPressedEvent> = Vec::new();
    let mut e: usize = 0;
    while e < events.len()
        invariant
            0 <= e <= events@.len(),
            switches@ == run_events(sw0, events@.take(e as int)).0,
            out@ == run_events(sw0, events@.take(e as int)).1,
            forall|k: int| 0 <= k < switches@.len() ==> (#[trigger] switches@[k]).wf(),
        decreases events@.len() - e,
    {
        let ev = events[e];
        let ghost sw_mid = switches@;
        let ghost out_mid = out@;
        let mut i: usize = 0;
        while i < switches.len()
            invariant
                0 <= i <= switches@.len(),
                switches@.len() == sw_mid.len(),
                forall|k: int|
                    i as int <= k < sw_mid.len() ==> switches@[k] == sw_mid[k],
                forall|k: int|
                    0 <= k < i as int ==> switches@[k] == switches_after(sw_mid, ev)[k],
                forall|k: int| 0 <= k < sw_mid.len() ==> (#[trigger] sw_mid[k]).wf(),
                forall|k: int| 0 <= k < switches@.len() ==> (#[trigger] switches@[k]).wf(),
                out@ == out_mid + emissions_for(sw_mid.take(i as int), ev),
            decreases switches@.len() - i,
        {
            let ghost pre = switches@;
            let entity = switches[i].entity;
            let count = switches[i].collisions;
            let touched = match ev {
                CollisionEvent::Started(a, b) => a == entity || b == entity,
                CollisionEvent::Stopped(a, b) => a == entity || b == entity,
            };
            if touched {
                match ev {
                    CollisionEvent::Started(_, _) => {
                        if count < i32::MAX {
                            switches[i].collisions = count + 1;
                        }
                        if count == 0 {
                            out.push(SwitchPressedEvent(entity, SwitchState::Pressed));
                        }
                    }
                    CollisionEvent::Stopped(_, _) => {
                        if count > 0 {
                            switches[i].collisions = count - 1;
                        }
                        if count == 1 {
                            out.push(SwitchPressedEvent(entity, SwitchState::Released));
                        }
                    }
                }
            }
            proof {
                lemma_emissions_snoc(sw_mid.take(i as int), sw_mid[i as int], ev);
                assert(sw_mid.take(i as int).push(sw_mid[i as int]) =~= sw_mid.take(i as int + 1));
                assert(switches@[i as int] == switches_after(sw_mid, ev)[i as int]);
                assert(out@ =~= out_mid + emissions_for(sw_mid.take(i as int + 1), ev));
            }
            i = i + 1;
        }
        proof {
            assert(switches@ =~= switches_after(sw_mid, ev));
            assert(sw_mid.take(sw_mid.len() as int) =~= sw_mid);
            lemma_run_events_snoc(sw0, events@.take(e as int), ev);
            assert(events@.take(e as int).push(ev) =~= events@.take(e as int + 1));
        }
        e = e + 1;
    }
    proof {
        assert(events@.take(events@.len() as int) =~= events@);
    }
    out
}

/// Over any sequence of collision events, a switch's contact count never goes
/// below zero, even if stop events outnumber start events.
pub proof fn lemma_switch_count_nonnegative(sw: Seq<Switch>, evs: Seq<CollisionEvent>)
    requires
        forall|i: int| 0 <= i < sw.len() ==> (#[trigger] sw[i]).wf(),
    ensures
        run_events(sw, evs).0.len() == sw.len(),
        forall|i: int| 0 <= i < sw.len() ==> (#[trigger] run_events(sw, evs).0[i]).wf(),
    decreases evs.len(),
{
    if evs.len() > 0 {
        let sw1 = switches_after(sw, evs[0]);
        assert forall|i: int| 0 <= i < sw1.len() implies (#[trigger] sw1[i]).wf() by {
            assert(sw[i].wf());
        }
        lemma_switch_count_nonnegative(sw1, evs.skip(1));
    }
}

} // verus!
