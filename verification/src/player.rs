use vstd::prelude::*;
use crate::timer::{reset_timer, ticked, timer_done, Timer};

verus! {

/// Marker for the player subsystem.
pub struct PlayerPlugin;

/// The ability cycle: Idle, then Performing while the ability runs, then a
/// Cooldown before it can be used again.
#[derive(Debug, Clone, Copy, PartialEq, Eq, Structural)]
pub enum PlayerAbilityState {
    Performing,
    Cooldown,
    Idle,
}

/// The colour the player sprite is tinted with: grayed out during cooldown.
#[derive(Debug, Clone, Copy, PartialEq, Eq, Structural)]
pub enum Tint {
    White,
    Gray,
}

/// The player's directional and ability inputs for one frame.
#[derive(Debug, Clone, Copy, PartialEq, Eq, Structural)]
pub struct InputState {
    pub up: bool,
    pub down: bool,
    pub left: bool,
    pub right: bool,
    pub ability: bool,
}

/// One sampled entry of the player's recent history: position and sprite
/// frame.
#[derive(Debug, Clone, Copy, PartialEq, Eq, Structural)]
pub struct PlayerPastState {
    pub x: i64,
    pub y: i64,
    pub sprite_index: usize,
}

/// A bounded first-in-first-out history of the player's recent states: when
/// full, a push evicts the oldest entry.
pub struct PlayerPastStates {
    pub entries: Vec<PlayerPastState>,
    pub capacity: usize,
}

/// A history after one push: appended, evicting the oldest entry when the
/// buffer is at capacity.
pub open spec fn pushed(
    entries: Seq<PlayerPastState>,
    capacity: int,
    e: PlayerPastState,
) -> Seq<PlayerPastState> {
    if entries.len() < capacity {
        entries.push(e)
    } else {
        entries.drop_first().push(e)
    }
}

impl PlayerPastStates {
    /// Well-formed: a positive capacity that the buffer never exceeds.
    pub open spec fn wf(self) -> bool {
        1 <= self.capacity && self.entries@.len() <= self.capacity
    }

    /// An empty history of the given capacity.
    pub fn new(capacity: usize) -> (h: PlayerPastStates)
        requires
            capacity >= 1,
        ensures
            h.capacity == capacity,
            h.entries@.len() == 0,
            h.wf(),
    {
        PlayerPastStates { entries: Vec::new(), capacity }
    }

    /// Append one entry, evicting the oldest if the buffer is full.
    pub fn push(&mut self, e: PlayerPastState)
        requires
            old(self).wf(),
        ensures
            final(self).capacity == old(self).capacity,
            final(self).entries@ == pushed(old(self).entries@, old(self).capacity as int, e),
            final(self).wf(),
    {
        let ghost e0 = self.entries@;
        if self.entries.len() == self.capacity {
            self.entries.remove(0);
            proof {
                assert(self.entries@ =~= e0.drop_first());
            }
        }
        self.entries.push(e);
    }
}

/// A history after pushing a whole sequence of entries in order.
pub open spec fn pushed_all(
    entries: Seq<PlayerPastState>,
    capacity: int,
    es: Seq<PlayerPastState>,
) -> Seq<PlayerPastState>
    decreases es.len(),
{
    if es.len() == 0 {
        entries
    } else {
        pushed_all(pushed(entries, capacity, es[0]), capacity, es.skip(1))
    }
}

/// Appending one entry to the fold pushes it last.
proof fn lemma_pushed_all_snoc(
    entries: Seq<PlayerPastState>,
    capacity: int,
    es: Seq<PlayerPastState>,
    e: PlayerPastState,
)
    ensures
        pushed_all(entries, capacity, es.push(e)) == pushed(
            pushed_all(entries, capacity, es),
            capacity,
            e,
        ),
    decreases es.len(),
{
    let full = es.push(e);
    if es.len() == 0 {
        assert(full[0] == e);
        assert(full.skip(1) =~= Seq::<PlayerPastState>::empty());
        assert(pushed_all(entries, capacity, full) == pushed_all(
            pushed(entries, capacity, e),
            capacity,
            full.skip(1),
        ));
    } else {
        assert(full[0] == es[0]);
        assert(full.skip(1) =~= es.skip(1).push(e));
        lemma_pushed_all_snoc(pushed(entries, capacity, es[0]), capacity, es.skip(1), e);
        assert(pushed_all(entries, capacity, full) == pushed_all(
            pushed(entries, capacity, es[0]),
            capacity,
            full.skip(1),
        ));
        assert(pushed_all(entries, capacity, es) == pushed_all(
            pushed(entries, capacity, es[0]),
            capacity,
            es.skip(1),
        ));
    }
}

/// Filling an empty history with at most its capacity keeps every entry in
/// order.
proof fn lemma_pushed_all_no_eviction(capacity: int, es: Seq<PlayerPastState>)
    requires
        0 <= es.len() <= capacity,
    ensures
        pushed_all(Seq::empty(), capacity, es) == es,
    decreases es.len(),
{
    if es.len() > 0 {
        lemma_pushed_all_no_eviction(capacity, es.drop_last());
        lemma_pushed_all_snoc(Seq::empty(), capacity, es.drop_last(), es.last());
        assert(es.drop_last().push(es.last()) =~= es);
        assert(pushed(es.drop_last(), capacity, es.last()) =~= es);
    } else {
        assert(es =~= Seq::<PlayerPastState>::empty());
    }
}

/// Pushing capacity-plus-one entries into an empty history evicts exactly the
/// oldest entry and keeps the remaining ones in order.
pub proof fn lemma_history_eviction(capacity: int, es: Seq<PlayerPastState>)
    requires
        capacity >= 1,
        es.len() == capacity + 1,
    ensures
        pushed_all(Seq::empty(), capacity, es) == es.skip(1),
{
    lemma_pushed_all_no_eviction(capacity, es.drop_last());
    lemma_pushed_all_snoc(Seq::empty(), capacity, es.drop_last(), es.last());
    assert(es.drop_last().push(es.last()) =~= es);
    assert(pushed(es.drop_last(), capacity, es.last()) == es.drop_last().drop_first().push(
        es.last(),
    ));
    assert(es.drop_last().drop_first().push(es.last()) =~= es.skip(1));
}

/// The player: ability state, sprite and tint, world position, velocity, the
/// four frame timers, and the sampled history that feeds the trailing
/// after-image.
pub struct Player {
    pub ability_state: PlayerAbilityState,
    pub tint: Tint,
    pub sprite_index: usize,
    pub x: i64,
    pub y: i64,
    pub vel_x: i32,
    pub vel_y: i32,
    pub usage_timer: Timer,
    pub cooldown_timer: Timer,
    pub animation_timer: Timer,
    pub state_timer: Timer,
    pub past_states: PlayerPastStates,
}

/// The mathematical state of a player: the player with its history as a
/// sequence.
#[verifier::ext_equal]
pub struct PlayerV {
    pub ability_state: PlayerAbilityState,
    pub tint: Tint,
    pub sprite_index: usize,
    pub x: i64,
    pub y: i64,
    pub vel_x: i32,
    pub vel_y: i32,
    pub usage_timer: Timer,
    pub cooldown_timer: Timer,
    pub animation_timer: Timer,
    pub state_timer: Timer,
    pub past: Seq<PlayerPastState>,
    pub capacity: usize,
}

impl View for Player {
    type V = PlayerV;

    open spec fn view(&self) -> PlayerV {
        PlayerV {
            ability_state: self.ability_state,
            tint: self.tint,
            sprite_index: self.sprite_index,
            x: self.x,
            y: self.y,
            vel_x: self.vel_x,
            vel_y: self.vel_y,
            usage_timer: self.usage_timer,
            cooldown_timer: self.cooldown_timer,
            animation_timer: self.animation_timer,
            state_timer: self.state_timer,
            past: self.past_states.entries@,
            capacity: self.past_states.capacity,
        }
    }
}

/// Well-formed player state: sane timers, a sprite frame inside the four
/// four-frame banks, and a well-formed history buffer.
pub open spec fn player_wf(v: PlayerV) -> bool {
    &&& v.usage_timer.wf()
    &&& v.cooldown_timer.wf()
    &&& v.animation_timer.wf()
    &&& v.state_timer.wf()
    &&& v.sprite_index < 16
    &&& 1 <= v.capacity
    &&& v.past.len() <= v.capacity
}

/// How long the ability may run before it is cut off.
pub const USAGE_MS: u32 = 5000;

/// How long the cooldown lasts.
pub const COOLDOWN_MS: u32 = 3000;

/// How often a held direction advances the walking animation.
pub const ANIMATION_MS: u32 = 200;

/// How often the player's state is sampled into the history buffer.
pub const STATE_SAMPLE_MS: u32 = 50;

/// How many sampled states the history holds before evicting the oldest.
pub const HISTORY_CAPACITY: usize = 100;

impl Player {
    /// A freshly spawned player at the given position: idle, untinted, frame
    /// zero, at rest, with fresh timers and an empty history.
    pub fn new(x: i64, y: i64) -> (p: Player)
        ensures
            p@ == (PlayerV {
                ability_state: PlayerAbilityState::Idle,
                tint: Tint::White,
                sprite_index: 0,
                x,
                y,
                vel_x: 0,
                vel_y: 0,
                usage_timer: Timer { elapsed: 0, duration: USAGE_MS },
                cooldown_timer: Timer { elapsed: 0, duration: COOLDOWN_MS },
                animation_timer: Timer { elapsed: 0, duration: ANIMATION_MS },
                state_timer: Timer { elapsed: 0, duration: STATE_SAMPLE_MS },
                past: Seq::empty(),
                capacity: HISTORY_CAPACITY,
            }),
            player_wf(p@),
    {
        let p = Player {
            ability_state: PlayerAbilityState::Idle,
            tint: Tint::White,
            sprite_index: 0,
            x,
            y,
            vel_x: 0,
            vel_y: 0,
            usage_timer: Timer::new(USAGE_MS),
            cooldown_timer: Timer::new(COOLDOWN_MS),
            animation_timer: Timer::new(ANIMATION_MS),
            state_timer: Timer::new(STATE_SAMPLE_MS),
            past_states: PlayerPastStates::new(HISTORY_CAPACITY),
        };
        proof {
            assert(p@.past =~= Seq::<PlayerPastState>::empty());
        }
        p
    }
}

/// Any directional input is held.
pub open spec fn direction_active(i: InputState) -> bool {
    i.up || i.down || i.left || i.right
}

/// The player after the movement pass: a held direction drives the matching
/// velocity component to 100 units (down and left taking precedence over up
/// and right when both are held); released axes keep their velocity and are
/// slowed by the physics world's damping instead.
pub open spec fn moved(v: PlayerV, input: InputState) -> PlayerV {
    PlayerV {
        vel_x: if input.left {
            -100i32
        } else if input.right {
            100i32
        } else {
            v.vel_x
        },
        vel_y: if input.down {
            -100i32
        } else if input.up {
            100i32
        } else {
            v.vel_y
        },
        ..v
    }
}

/// The four-frame sprite bank a held direction selects: down 0, up 4, left
/// 8, right 12, with left checked first and down last.
pub open spec fn animation_bank(i: InputState) -> Option<int> {
    if i.left {
        Some(8int)
    } else if i.right {
        Some(12int)
    } else if i.up {
        Some(4int)
    } else if i.down {
        Some(0int)
    } else {
        None
    }
}

/// The player after the animation pass: while a direction is held its bank
/// cycles through four frames at the animation interval; with no direction
/// held the frame snaps back to the bank's first frame once the current tick
/// completes. The tint grays out during cooldown.
pub open spec fn animated(v: PlayerV, input: InputState, dt: u32) -> PlayerV {
    let tint = if v.ability_state is Cooldown {
        Tint::Gray
    } else {
        Tint::White
    };
    match animation_bank(input) {
        Some(bank) => {
            let t1 = ticked(v.animation_timer, dt);
            if timer_done(t1) {
                PlayerV {
                    sprite_index: (bank + ((v.sprite_index + 1) % 4)) as usize,
                    animation_timer: reset_timer(t1),
                    tint,
                    ..v
                }
            } else {
                PlayerV {
                    sprite_index: (bank + (v.sprite_index % 4)) as usize,
                    animation_timer: t1,
                    tint,
                    ..v
                }
            }
        },
        None => {
            if timer_done(v.animation_timer) {
                PlayerV {
                    sprite_index: (v.sprite_index - (v.sprite_index % 4)) as usize,
                    animation_timer: reset_timer(v.animation_timer),
                    tint,
                    ..v
                }
            } else {
                PlayerV { animation_timer: ticked(v.animation_timer, dt), tint, ..v }
            }
        },
    }
}

/// The state entry the sampler records.
pub open spec fn sample_of(v: PlayerV) -> PlayerPastState {
    PlayerPastState { x: v.x, y: v.y, sprite_index: v.sprite_index }
}

/// The player after the history pass: at each sample interval the current
/// position and frame are appended to the bounded history.
pub open spec fn sampled(v: PlayerV, dt: u32) -> PlayerV {
    let t1 = ticked(v.state_timer, dt);
    if timer_done(t1) {
        PlayerV {
            state_timer: reset_timer(t1),
            past: pushed(v.past, v.capacity as int, sample_of(v)),
            ..v
        }
    } else {
        PlayerV { state_timer: t1, ..v }
    }
}

/// The player after the ability pass. Idle: the ability input together with
/// a direction starts Performing. Performing: the usage timer runs, and
/// releasing all directions or its timeout enters Cooldown and resets the
/// timer. Cooldown: input is ignored until the cooldown timer ends back in
/// Idle.
pub open spec fn ability_updated(v: PlayerV, input: InputState, dt: u32) -> PlayerV {
    match v.ability_state {
        PlayerAbilityState::Idle => if input.ability && direction_active(input) {
            PlayerV { ability_state: PlayerAbilityState::Performing, ..v }
        } else {
            v
        },
        PlayerAbilityState::Performing => {
            let t1 = ticked(v.usage_timer, dt);
            if !direction_active(input) || timer_done(t1) {
                PlayerV {
                    ability_state: PlayerAbilityState::Cooldown,
                    usage_timer: reset_timer(t1),
                    ..v
                }
            } else {
                PlayerV { usage_timer: t1, ..v }
            }
        },
        PlayerAbilityState::Cooldown => {
            let t1 = ticked(v.cooldown_timer, dt);
            if timer_done(t1) {
                PlayerV {
                    ability_state: PlayerAbilityState::Idle,
                    cooldown_timer: reset_timer(t1),
                    ..v
                }
            } else {
                PlayerV { cooldown_timer: t1, ..v }
            }
        },
    }
}

/// What the frame does with the trailing after-image of the player.
#[derive(Debug, Clone, Copy, PartialEq, Eq, Structural)]
pub enum PastPlayerAction {
    /// Create it, showing the given sampled state.
    Spawn(PlayerPastState),
    /// Move the existing one to the given sampled state.
    Follow(PlayerPastState),
    /// Remove it.
    Despawn,
}

/// The after-image action for a frame, given the ability state the frame
/// started with: spawned at the oldest history entry on entering Performing,
/// following the oldest entry while Performing, removed otherwise.
pub open spec fn past_player_action(prev: PlayerAbilityState, v: PlayerV) -> PastPlayerAction {
    if v.ability_state is Performing && v.past.len() > 0 {
        if prev != v.ability_state {
            PastPlayerAction::Spawn(v.past[0])
        } else {
            PastPlayerAction::Follow(v.past[0])
        }
    } else {
        PastPlayerAction::Despawn
    }
}

/// Movement pass: drive the velocity from the held directions.
pub fn player_movement(player: &mut Player, input: &InputState)
    ensures
        final(player)@ == moved(old(player)@, *input),
{
    if input.up {
        player.vel_y = 100;
    }
    if input.down {
        player.vel_y = -100;
    }
    if input.right {
        player.vel_x = 100;
    }
    if input.left {
        player.vel_x = -100;
    }
    proof {
        assert(player@ =~= moved(old(player)@, *input));
    }
}

/// Animation pass: advance the walking animation and the cooldown tint.
pub fn player_animation(player: &mut Player, input: &InputState, dt: u32)
    requires
        player_wf(old(player)@),
    ensures
        final(player)@ == animated(old(player)@, *input, dt),
        player_wf(final(player)@),
{
    if input.left {
        player.animation_timer.tick(dt);
        let adv: usize = if player.animation_timer.finished() {
            player.animation_timer.reset();
            1
        } else {
            0
        };
        player.sprite_index = 8 + ((player.sprite_index + adv) % 4);
    } else if input.right {
        player.animation_timer.tick(dt);
        let adv: usize = if player.animation_timer.finished() {
            player.animation_timer.reset();
            1
        } else {
            0
        };
        player.sprite_index = 12 + ((player.sprite_index + adv) % 4);
    } else if input.up {
        player.animation_timer.tick(dt);
        let adv: usize = if player.animation_timer.finished() {
            player.animation_timer.reset();
            1
        } else {
            0
        };
        player.sprite_index = 4 + ((player.sprite_index + adv) % 4);
    } else if input.down {
        player.animation_timer.tick(dt);
        let adv: usize = if player.animation_timer.finished() {
            player.animation_timer.reset();
            1
        } else {
            0
        };
        player.sprite_index = 0 + ((player.sprite_index + adv) % 4);
    } else if player.animation_timer.finished() {
        player.animation_timer.reset();
        player.sprite_index = player.sprite_index - player.sprite_index % 4;
    } else {
        player.animation_timer.tick(dt);
    }
    match player.ability_state {
        PlayerAbilityState::Cooldown => {
            player.tint = Tint::Gray;
        },
        _ => {
            player.tint = Tint::White;
        },
    }
    proof {
        assert(player@ =~= animated(old(player)@, *input, dt));
    }
}

/// History pass: sample position and frame into the bounded history at the
/// sample interval.
pub fn player_state_tracker(player: &mut Player, dt: u32)
    requires
        player_wf(old(player)@),
    ensures
        final(player)@ == sampled(old(player)@, dt),
        player_wf(final(player)@),
{
    player.state_timer.tick(dt);
    if player.state_timer.finished() {
        player.state_timer.reset();
        let entry = PlayerPastState { x: player.x, y: player.y, sprite_index: player.sprite_index };
        player.past_states.push(entry);
    }
    proof {
        assert(player@ =~= sampled(old(player)@, dt));
    }
}

/// Ability pass: run the Idle, Performing and Cooldown transitions.
pub fn update_ability(player: &mut Player, input: &InputState, dt: u32)
    requires
        player_wf(old(player)@),
    ensures
        final(player)@ == ability_updated(old(player)@, *input, dt),
        player_wf(final(player)@),
{
    let direction = input.up || input.down || input.left || input.right;
    match player.ability_state {
        PlayerAbilityState::Idle => {
            if input.ability && direction {
                player.ability_state = PlayerAbilityState::Performing;
            }
        },
        PlayerAbilityState::Performing => {
            player.usage_timer.tick(dt);
            if !direction || player.usage_timer.finished() {
                player.usage_timer.reset();
                player.ability_state = PlayerAbilityState::Cooldown;
            }
        },
        PlayerAbilityState::Cooldown => {
            player.cooldown_timer.tick(dt);
            if player.cooldown_timer.finished() {
                player.cooldown_timer.reset();
                player.ability_state = PlayerAbilityState::Idle;
            }
        },
    }
    proof {
        assert(player@ =~= ability_updated(old(player)@, *input, dt));
    }
}

/// The state the after-image is spawned with when the ability starts: the
/// oldest history entry, or nothing if no state has been sampled yet.
pub fn spawn_past_player(player: &Player) -> (r: Option<PlayerPastState>)
    ensures
        r == if player@.ability_state is Performing && player@.past.len() > 0 {
            Some(player@.past[0])
        } else {
            None::<PlayerPastState>
        },
{
    match player.ability_state {
        PlayerAbilityState::Performing => {
            if player.past_states.entries.len() > 0 {
                Some(player.past_states.entries[0])
            } else {
                None
            }
        },
        _ => None,
    }
}

/// The state an existing after-image follows each frame: the oldest history
/// entry.
pub fn update_past_player(player: &Player) -> (r: Option<PlayerPastState>)
    ensures
        r == if player@.past.len() > 0 {
            Some(player@.past[0])
        } else {
            None::<PlayerPastState>
        },
{
    if player.past_states.entries.len() > 0 {
        Some(player.past_states.entries[0])
    } else {
        None
    }
}

/// Whether the after-image must be removed: whenever the player is not
/// performing the ability.
pub fn remove_past_when_not_preforming(player: &Player) -> (r: bool)
    ensures
        r == !(player@.ability_state is Performing),
{
    match player.ability_state {
        PlayerAbilityState::Performing => false,
        _ => true,
    }
}

impl PlayerPlugin {
    /// The player subsystem's passes for one frame, in order: movement,
    /// animation, history sampling, the ability state machine, and finally
    /// the after-image decision for the renderer.
    pub fn step(player: &mut Player, input: &InputState, dt: u32) -> (r: PastPlayerAction)
        requires
            player_wf(old(player)@),
        ensures
            final(player)@ == ability_updated(
                sampled(animated(moved(old(player)@, *input), *input, dt), dt),
                *input,
                dt,
            ),
            player_wf(final(player)@),
            r == past_player_action(old(player)@.ability_state, final(player)@),
    {
        let prev = player.ability_state;
        player_movement(player, input);
        player_animation(player, input, dt);
        player_state_tracker(player, dt);
        update_ability(player, input, dt);
        let changed = prev != player.ability_state;
        match spawn_past_player(player) {
            Some(p) => {
                if changed {
                    PastPlayerAction::Spawn(p)
                } else {
                    PastPlayerAction::Follow(p)
                }
            },
            None => PastPlayerAction::Despawn,
        }
    }
}

} // verus!
