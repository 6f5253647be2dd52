use vstd::prelude::*;
use crate::components::{Acceleration, BulletReady, FaceDir, HEADINGS, DIR_SCALE, MoveDir, Player, Transform, Velocity, move_dir_spec, transform_valid};
use crate::input::{PlayerInput, angular_thrust_pitch, angular_thrust_roll, fire, fire_spec, pitch_spec, roll_spec};
use crate::math::{Vec3i, dist2_spec, distance_squared, wrap_spec, warp_infinite_space_into_finite_cube};

verus! {

/// Number of players in a match.
pub const NUM_PLAYERS: usize = 2;

/// Highest speed step of a ship.
pub const MAX_SPEED: u8 = 16;

/// Speed step of a freshly spawned ship.
pub const START_SPEED: u8 = 11;

/// Stick deflection, in hundredths, from which an intent counts.
pub const INTENT_THRESHOLD: i32 = 50;

/// Speed step of a bullet; slow enough that a bullet cannot pass through a
/// ship between two frames.
pub const BULLET_SPEED: i64 = 40;

/// Frames a bullet lives (ten seconds at sixty frames per second).
pub const BULLET_TTL: u32 = 600;

/// Radii used by the hit test, in subunits (4096 per world unit).
pub const PLAYER_RADIUS: i64 = 12288;
pub const BULLET_RADIUS: i64 = 102;

/// Frames between an elimination and the next round (one second).
pub const ROUND_END_FRAMES: u32 = 60;

/// Largest velocity component of a ship.
pub const MAX_SHIP_VELOCITY: i64 = 4096;

/// Offsets of a volley from the firing ship: ahead, to the side, and up.
pub const VOLLEY_AHEAD: i64 = 48;
pub const VOLLEY_SIDE: i64 = 35;
pub const VOLLEY_UP: i64 = 4096;

/// The round lifecycle inside a running game.
#[derive(Clone, Copy, Debug, PartialEq, Eq, Structural)]
pub enum RollbackState {
    /// The ships are flying and fighting.
    InRound,
    /// A ship was eliminated; the next round starts when the timer runs out.
    RoundEnd,
}

/// A player's ship.
#[derive(Clone, Copy, Debug, PartialEq, Eq, Structural)]
pub struct Ship {
    pub player: Player,
    pub transform: Transform,
    /// Speed step, `0..=MAX_SPEED`.
    pub speed: u8,
    pub velocity: Velocity,
    pub acceleration: Acceleration,
    pub ready: BulletReady,
}

/// A projectile.
#[derive(Clone, Copy, Debug, PartialEq, Eq, Structural)]
pub struct Bullet {
    /// Handle of the player that fired it.
    pub owner: usize,
    pub transform: Transform,
    pub velocity: Velocity,
    /// Frames since it was fired.
    pub age: u32,
}

/// Eliminations scored by player 0 and by player 1.
#[derive(Clone, Copy, Debug, PartialEq, Eq, Structural)]
pub struct Scores(pub u32, pub u32);

/// Everything that takes part in rollback.
#[derive(Clone, Debug, PartialEq, Eq)]
pub struct SimState {
    pub ships: Vec<Ship>,
    pub bullets: Vec<Bullet>,
    pub scores: Scores,
    pub round: RollbackState,
    /// Frames spent in the current round end.
    pub round_end_timer: u32,
}

/// The mathematical value of a `SimState`.
pub struct SimModel {
    pub ships: Seq<Ship>,
    pub bullets: Seq<Bullet>,
    pub scores: Scores,
    pub round: RollbackState,
    pub round_end_timer: u32,
}

impl View for SimState {
    type V = SimModel;

    open spec fn view(&self) -> SimModel {
        SimModel {
            ships: self.ships@,
            bullets: self.bullets@,
            scores: self.scores,
            round: self.round,
            round_end_timer: self.round_end_timer,
        }
    }
}

pub open spec fn scaled(d: MoveDir, k: int) -> Vec3i {
    Vec3i { x: (d.0.x * k) as i64, y: (d.0.y * k) as i64, z: (d.0.z * k) as i64 }
}

pub open spec fn within(v: Vec3i, b: int) -> bool {
    -b <= v.x <= b && -b <= v.y <= b && -b <= v.z <= b
}

pub open spec fn ship_wf(s: Ship) -> bool {
    &&& s.player.handle < NUM_PLAYERS
    &&& transform_valid(s.transform)
    &&& s.speed <= MAX_SPEED
    &&& s.velocity.0 == scaled(move_dir_spec(s.transform.rotation), s.speed as int)
    &&& within(s.acceleration.0, 2 * MAX_SHIP_VELOCITY)
}

pub open spec fn bullet_wf(b: Bullet) -> bool {
    &&& b.owner < NUM_PLAYERS
    &&& transform_valid(b.transform)
    &&& b.velocity.0 == scaled(move_dir_spec(b.transform.rotation), BULLET_SPEED as int)
    &&& b.age < BULLET_TTL
}

impl SimModel {
    pub open spec fn wf(self) -> bool {
        &&& self.ships.len() <= NUM_PLAYERS
        &&& forall|i: int| 0 <= i < self.ships.len() ==> ship_wf(#[trigger] self.ships[i])
        &&& forall|i: int| 0 <= i < self.bullets.len() ==> bullet_wf(#[trigger] self.bullets[i])
        &&& self.round_end_timer < ROUND_END_FRAMES
    }
}

pub open spec fn inputs_wf(inputs: Seq<PlayerInput>) -> bool {
    inputs.len() == NUM_PLAYERS
}

// ---------------------------------------------------------------- movement

pub open spec fn turned(f: FaceDir, roll: int) -> FaceDir {
    if roll <= -INTENT_THRESHOLD {
        FaceDir(((f.0 + 1) % 8) as u8)
    } else if roll >= INTENT_THRESHOLD {
        FaceDir(((f.0 + 7) % 8) as u8)
    } else {
        f
    }
}

pub open spec fn throttled(speed: u8, pitch: int) -> u8 {
    if pitch >= INTENT_THRESHOLD && speed < MAX_SPEED {
        (speed + 1) as u8
    } else if pitch <= -INTENT_THRESHOLD && speed > 0 {
        (speed - 1) as u8
    } else {
        speed
    }
}

pub open spec fn vsub(a: Vec3i, b: Vec3i) -> Vec3i {
    Vec3i { x: (a.x - b.x) as i64, y: (a.y - b.y) as i64, z: (a.z - b.z) as i64 }
}

pub open spec fn vadd(a: Vec3i, b: Vec3i) -> Vec3i {
    Vec3i { x: (a.x + b.x) as i64, y: (a.y + b.y) as i64, z: (a.z + b.z) as i64 }
}

/// One frame of flight: roll turns the ship, pitch changes its speed, and it
/// moves by its new velocity, wrapping around the cube.
pub open spec fn move_ship(s: Ship, input: PlayerInput) -> Ship {
    let face = turned(s.transform.rotation, roll_spec(input));
    let speed = throttled(s.speed, pitch_spec(input));
    let v = scaled(move_dir_spec(face), speed as int);
    Ship {
        transform: Transform {
            translation: wrap_spec(vadd(s.transform.translation, v)),
            rotation: face,
        },
        speed,
        velocity: Velocity(v),
        acceleration: Acceleration(vsub(v, s.velocity.0)),
        ..s
    }
}

pub open spec fn move_stage(m: SimModel, inputs: Seq<PlayerInput>) -> SimModel {
    SimModel {
        ships: m.ships.map_values(|s: Ship| move_ship(s, inputs[s.player.handle as int])),
        ..m
    }
}

fn scale_dir(d: MoveDir, k: i64) -> (r: Vec3i)
    requires
        within(d.0, DIR_SCALE as int),
        0 <= k <= BULLET_SPEED,
    ensures
        r == scaled(d, k as int),
        within(r, DIR_SCALE * BULLET_SPEED),
{
    assert(-DIR_SCALE * BULLET_SPEED <= d.0.x * k <= DIR_SCALE * BULLET_SPEED) by (nonlinear_arith)
        requires -DIR_SCALE <= d.0.x <= DIR_SCALE, 0 <= k <= BULLET_SPEED;
    assert(-DIR_SCALE * BULLET_SPEED <= d.0.y * k <= DIR_SCALE * BULLET_SPEED) by (nonlinear_arith)
        requires -DIR_SCALE <= d.0.y <= DIR_SCALE, 0 <= k <= BULLET_SPEED;
    assert(-DIR_SCALE * BULLET_SPEED <= d.0.z * k <= DIR_SCALE * BULLET_SPEED) by (nonlinear_arith)
        requires -DIR_SCALE <= d.0.z <= DIR_SCALE, 0 <= k <= BULLET_SPEED;
    Vec3i { x: d.0.x * k, y: d.0.y * k, z: d.0.z * k }
}

proof fn lemma_ship_velocity_bound(f: FaceDir, speed: u8)
    requires
        f.0 < HEADINGS,
        speed <= MAX_SPEED,
    ensures
        within(scaled(move_dir_spec(f), speed as int), MAX_SHIP_VELOCITY as int),
{
    let d = move_dir_spec(f);
    let k = speed as int;
    assert(-256 <= d.0.x <= 256 && -256 <= d.0.y <= 256 && d.0.z == 0);
    assert(-4096 <= d.0.x * k <= 4096) by (nonlinear_arith)
        requires -256 <= d.0.x <= 256, 0 <= k <= 16;
    assert(-4096 <= d.0.y * k <= 4096) by (nonlinear_arith)
        requires -256 <= d.0.y <= 256, 0 <= k <= 16;
}

fn move_ship_exec(s: Ship, input: PlayerInput) -> (r: Ship)
    requires
        ship_wf(s),
    ensures
        r == move_ship(s, input),
        ship_wf(r),
{
    let roll = angular_thrust_roll(input);
    let pitch = angular_thrust_pitch(input);
    let h = s.transform.rotation.0;
    let face = if roll <= -INTENT_THRESHOLD {
        FaceDir((h + 1) % 8)
    } else if roll >= INTENT_THRESHOLD {
        FaceDir((h + 7) % 8)
    } else {
        s.transform.rotation
    };
    let speed = if pitch >= INTENT_THRESHOLD && s.speed < MAX_SPEED {
        s.speed + 1
    } else if pitch <= -INTENT_THRESHOLD && s.speed > 0 {
        s.speed - 1
    } else {
        s.speed
    };
    let d = MoveDir::of(face);
    let v = scale_dir(d, speed as i64);
    proof {
        lemma_ship_velocity_bound(face, speed);
        lemma_ship_velocity_bound(s.transform.rotation, s.speed);
    }
    let t = s.transform.translation;
    let moved = Vec3i { x: t.x + v.x, y: t.y + v.y, z: t.z + v.z };
    let acc = Vec3i { x: v.x - s.velocity.0.x, y: v.y - s.velocity.0.y, z: v.z - s.velocity.0.z };
    Ship {
        transform: Transform {
            translation: warp_infinite_space_into_finite_cube(moved),
            rotation: face,
        },
        speed,
        velocity: Velocity(v),
        acceleration: Acceleration(acc),
        ..s
    }
}

impl SimState {
    /// Movement stage: every ship turns, throttles and moves on its own input.
    pub fn move_players(&mut self, inputs: &Vec<PlayerInput>)
        requires
            old(self)@.wf(),
            inputs_wf(inputs@),
        ensures
            final(self)@ == move_stage(old(self)@, inputs@),
            final(self)@.wf(),
    {
        let ghost before = self.ships@;
        let mut i: usize = 0;
        while i < self.ships.len()
            invariant
                self.ships@.len() == before.len(),
                before == old(self).ships@,
                self.bullets == old(self).bullets,
                self.scores == old(self).scores,
                self.round == old(self).round,
                self.round_end_timer == old(self).round_end_timer,
                old(self)@.wf(),
                before.len() <= NUM_PLAYERS,
                inputs_wf(inputs@),
                forall|k: int| 0 <= k < before.len() ==> ship_wf(#[trigger] before[k]),
                forall|k: int|
                    0 <= k < i ==> self.ships@[k] == move_ship(before[k], inputs@[before[k].player.handle as int]),
                forall|k: int| i <= k < before.len() ==> self.ships@[k] == before[k],
                forall|k: int| 0 <= k < i ==> ship_wf(#[trigger] self.ships@[k]),
            decreases before.len() - i,
        {
            let s = self.ships[i];
            assert(s == before[i as int]);
            assert(ship_wf(before[i as int]));
            let input = inputs[s.player.handle];
            let moved = move_ship_exec(s, input);
            self.ships.set(i, moved);
            i = i + 1;
        }
        assert(self.ships@ =~= before.map_values(|s: Ship| move_ship(s, inputs@[s.player.handle as int])));
    }
}


// ---------------------------------------------------------------- cooldown

pub open spec fn reload_ship(s: Ship, input: PlayerInput) -> Ship {
    if !fire_spec(input) {
        Ship { ready: BulletReady(true), ..s }
    } else {
        s
    }
}

pub open spec fn reload_stage(m: SimModel, inputs: Seq<PlayerInput>) -> SimModel {
    SimModel {
        ships: m.ships.map_values(|s: Ship| reload_ship(s, inputs[s.player.handle as int])),
        ..m
    }
}

// ---------------------------------------------------------------- spawn

pub open spec fn fires(s: Ship, inputs: Seq<PlayerInput>) -> bool {
    fire_spec(inputs[s.player.handle as int]) && s.ready.0
}

pub open spec fn perp(d: MoveDir) -> Vec3i {
    Vec3i { x: (-d.0.y) as i64, y: d.0.x, z: 0 }
}

/// One bullet of a volley, `side` and `up` being `-1` or `1`.
pub open spec fn shot(s: Ship, side: int, up: int) -> Bullet {
    let d = move_dir_spec(s.transform.rotation);
    let p = perp(d);
    let offset = Vec3i {
        x: (d.0.x * VOLLEY_AHEAD + p.x * side * VOLLEY_SIDE) as i64,
        y: (d.0.y * VOLLEY_AHEAD + p.y * side * VOLLEY_SIDE) as i64,
        z: (up * VOLLEY_UP) as i64,
    };
    Bullet {
        owner: s.player.handle,
        transform: Transform {
            translation: wrap_spec(vadd(s.transform.translation, offset)),
            rotation: s.transform.rotation,
        },
        velocity: Velocity(scaled(d, BULLET_SPEED as int)),
        age: 0,
    }
}

/// The four bullets a ship fires at once, from the corners of its wings.
pub open spec fn volley(s: Ship) -> Seq<Bullet> {
    seq![shot(s, -1, -1), shot(s, -1, 1), shot(s, 1, -1), shot(s, 1, 1)]
}

/// The bullets fired by `ships`, in ship order.
pub open spec fn spawned(ships: Seq<Ship>, inputs: Seq<PlayerInput>) -> Seq<Bullet>
    decreases ships.len(),
{
    if ships.len() == 0 {
        Seq::empty()
    } else {
        spawned(ships.drop_last(), inputs) + if fires(ships.last(), inputs) {
            volley(ships.last())
        } else {
            Seq::empty()
        }
    }
}

pub open spec fn after_firing(s: Ship, inputs: Seq<PlayerInput>) -> Ship {
    if fires(s, inputs) {
        Ship { ready: BulletReady(false), ..s }
    } else {
        s
    }
}

pub open spec fn fire_stage(m: SimModel, inputs: Seq<PlayerInput>) -> SimModel {
    SimModel {
        ships: m.ships.map_values(|s: Ship| after_firing(s, inputs)),
        bullets: m.bullets + spawned(m.ships, inputs),
        ..m
    }
}

// ---------------------------------------------------------------- projectile advance

pub open spec fn bullet_alive(b: Bullet) -> bool {
    b.age + 1 < BULLET_TTL
}

pub open spec fn advanced(b: Bullet) -> Bullet {
    Bullet {
        transform: Transform {
            translation: wrap_spec(vadd(b.transform.translation, b.velocity.0)),
            ..b.transform
        },
        age: (b.age + 1) as u32,
        ..b
    }
}

pub open spec fn advance_stage(m: SimModel) -> SimModel {
    SimModel { bullets: m.bullets.filter(|b: Bullet| bullet_alive(b)).map_values(|b: Bullet| advanced(b)), ..m }
}

fn shot_exec(s: Ship, side: i64, up: i64) -> (r: Bullet)
    requires
        ship_wf(s),
        side == -1 || side == 1,
        up == -1 || up == 1,
    ensures
        r == shot(s, side as int, up as int),
        bullet_wf(r),
{
    let d = MoveDir::of(s.transform.rotation);
    let px: i64 = -d.0.y;
    let py: i64 = d.0.x;
    assert(-256 * 48 <= d.0.x * VOLLEY_AHEAD <= 256 * 48) by (nonlinear_arith)
        requires -256 <= d.0.x <= 256;
    assert(-256 * 48 <= d.0.y * VOLLEY_AHEAD <= 256 * 48) by (nonlinear_arith)
        requires -256 <= d.0.y <= 256;
    assert(-256 * 35 <= px * side * VOLLEY_SIDE <= 256 * 35) by (nonlinear_arith)
        requires -256 <= px <= 256, side == -1 || side == 1;
    assert(-256 * 35 <= py * side * VOLLEY_SIDE <= 256 * 35) by (nonlinear_arith)
        requires -256 <= py <= 256, side == -1 || side == 1;
    let offset = Vec3i {
        x: d.0.x * VOLLEY_AHEAD + px * side * VOLLEY_SIDE,
        y: d.0.y * VOLLEY_AHEAD + py * side * VOLLEY_SIDE,
        z: up * VOLLEY_UP,
    };
    let t = s.transform.translation;
    let at = Vec3i { x: t.x + offset.x, y: t.y + offset.y, z: t.z + offset.z };
    Bullet {
        owner: s.player.handle,
        transform: Transform {
            translation: warp_infinite_space_into_finite_cube(at),
            rotation: s.transform.rotation,
        },
        velocity: Velocity(scale_dir(d, BULLET_SPEED)),
        age: 0,
    }
}

impl SimState {
    /// Cooldown stage: a ship whose player has released fire may fire again.
    pub fn reload_bullet(&mut self, inputs: &Vec<PlayerInput>)
        requires
            old(self)@.wf(),
            inputs_wf(inputs@),
        ensures
            final(self)@ == reload_stage(old(self)@, inputs@),
            final(self)@.wf(),
    {
        let ghost before = self.ships@;
        let mut i: usize = 0;
        while i < self.ships.len()
            invariant
                self.ships@.len() == before.len(),
                before == old(self).ships@,
                self.bullets == old(self).bullets,
                self.scores == old(self).scores,
                self.round == old(self).round,
                self.round_end_timer == old(self).round_end_timer,
                old(self)@.wf(),
                inputs_wf(inputs@),
                forall|k: int|
                    0 <= k < i ==> self.ships@[k] == reload_ship(before[k], inputs@[before[k].player.handle as int]),
                forall|k: int| i <= k < before.len() ==> self.ships@[k] == before[k],
            decreases before.len() - i,
        {
            let s = self.ships[i];
            assert(s == before[i as int]);
            assert(ship_wf(before[i as int]));
            if !fire(inputs[s.player.handle]) {
                self.ships.set(i, Ship { ready: BulletReady(true), ..s });
            }
            i = i + 1;
        }
        assert(self.ships@ =~= before.map_values(|s: Ship| reload_ship(s, inputs@[s.player.handle as int])));
        assert forall|k: int| 0 <= k < self.ships@.len() implies ship_wf(#[trigger] self.ships@[k]) by {
            assert(ship_wf(before[k]));
        }
    }

    /// Spawn stage: a ship whose player holds fire while it is ready fires a
    /// volley and stops being ready.
    pub fn fire_bullets(&mut self, inputs: &Vec<PlayerInput>)
        requires
            old(self)@.wf(),
            inputs_wf(inputs@),
        ensures
            final(self)@ == fire_stage(old(self)@, inputs@),
            final(self)@.wf(),
    {
        let ghost before = self.ships@;
        let mut i: usize = 0;
        while i < self.ships.len()
            invariant
                self.ships@.len() == before.len(),
                before == old(self).ships@,
                self.bullets@ == old(self).bullets@ + spawned(before.subrange(0, i as int), inputs@),
                self.scores == old(self).scores,
                self.round == old(self).round,
                self.round_end_timer == old(self).round_end_timer,
                old(self)@.wf(),
                inputs_wf(inputs@),
                0 <= i <= before.len(),
                forall|k: int| 0 <= k < self.bullets@.len() ==> bullet_wf(#[trigger] self.bullets@[k]),
                forall|k: int| 0 <= k < i ==> self.ships@[k] == after_firing(before[k], inputs@),
                forall|k: int| i <= k < before.len() ==> self.ships@[k] == before[k],
            decreases before.len() - i,
        {
            let s = self.ships[i];
            assert(s == before[i as int]);
            assert(ship_wf(before[i as int]));
            let ghost pre = self.bullets@;
            let ghost sub = before.subrange(0, i as int + 1);
            assert(sub.drop_last() =~= before.subrange(0, i as int));
            assert(sub.last() == s);
            if fire(inputs[s.player.handle]) && s.ready.0 {
                let b0 = shot_exec(s, -1, -1);
                let b1 = shot_exec(s, -1, 1);
                let b2 = shot_exec(s, 1, -1);
                let b3 = shot_exec(s, 1, 1);
                self.bullets.push(b0);
                self.bullets.push(b1);
                self.bullets.push(b2);
                self.bullets.push(b3);
                self.ships.set(i, Ship { ready: BulletReady(false), ..s });
                assert(self.bullets@ =~= pre + volley(s));
            } else {
                assert(spawned(sub, inputs@) =~= spawned(before.subrange(0, i as int), inputs@));
            }
            assert(self.bullets@ =~= old(self).bullets@ + spawned(sub, inputs@));
            i = i + 1;
        }
        assert(before.subrange(0, before.len() as int) =~= before);
        assert(self.ships@ =~= before.map_values(|s: Ship| after_firing(s, inputs@)));
        assert forall|k: int| 0 <= k < self.ships@.len() implies ship_wf(#[trigger] self.ships@[k]) by {
            assert(ship_wf(before[k]));
        }
    }

    /// Projectile advance stage: a bullet at the end of its life is removed,
    /// every other one moves by its velocity and ages by a frame.
    pub fn move_bullet(&mut self)
        requires
            old(self)@.wf(),
        ensures
            final(self)@ == advance_stage(old(self)@),
            final(self)@.wf(),
    {
        let ghost before = self.bullets@;
        assert forall|k: int| 0 <= k < before.len() implies bullet_wf(#[trigger] before[k]) by {
            assert(bullet_wf(old(self)@.bullets[k]));
        }
        let mut kept: Vec<Bullet> = Vec::new();
        let mut i: usize = 0;
        while i < self.bullets.len()
            invariant
                self.bullets@ == before,
                before == old(self).bullets@,
                old(self)@.wf(),
                forall|k: int| 0 <= k < before.len() ==> bullet_wf(#[trigger] before[k]),
                0 <= i <= before.len(),
                kept@ == before.subrange(0, i as int).filter(|b: Bullet| bullet_alive(b)).map_values(
                    |b: Bullet| advanced(b),
                ),
                forall|k: int| 0 <= k < kept@.len() ==> bullet_wf(#[trigger] kept@[k]),
            decreases before.len() - i,
        {
            let b = self.bullets[i];
            assert(bullet_wf(before[i as int]));
            let ghost sub = before.subrange(0, i as int);
            assert(before.subrange(0, i as int + 1) =~= sub.push(b));
            proof {
                sub.lemma_filter_push(b, |b: Bullet| bullet_alive(b));
            }
            if b.age + 1 < BULLET_TTL {
                let t = b.transform.translation;
                let v = b.velocity.0;
                proof {
                    lemma_bullet_velocity_bound(b.transform.rotation);
                }
                let moved = Vec3i { x: t.x + v.x, y: t.y + v.y, z: t.z + v.z };
                let nb = Bullet {
                    transform: Transform {
                        translation: warp_infinite_space_into_finite_cube(moved),
                        ..b.transform
                    },
                    age: b.age + 1,
                    ..b
                };
                kept.push(nb);
                assert(kept@ =~= sub.filter(|b: Bullet| bullet_alive(b)).push(b).map_values(|b: Bullet| advanced(b)));
            }
            i = i + 1;
        }
        assert(before.subrange(0, before.len() as int) =~= before);
        self.bullets = kept;
    }
}

proof fn lemma_bullet_velocity_bound(f: FaceDir)
    requires
        f.0 < HEADINGS,
    ensures
        within(scaled(move_dir_spec(f), BULLET_SPEED as int), DIR_SCALE * BULLET_SPEED),
{
    let d = move_dir_spec(f);
    assert(-256 <= d.0.x <= 256 && -256 <= d.0.y <= 256 && d.0.z == 0);
    assert(-10240 <= d.0.x * 40 <= 10240);
    assert(-10240 <= d.0.y * 40 <= 10240);
}


// ---------------------------------------------------------------- elimination

/// Largest distance between a ship and a bullet that hit each other.
pub const HIT_DISTANCE: i64 = PLAYER_RADIUS + BULLET_RADIUS;

pub open spec fn hits(s: Ship, b: Bullet) -> bool {
    dist2_spec(s.transform.translation, b.transform.translation) < HIT_DISTANCE * HIT_DISTANCE
}

pub open spec fn ship_hit(s: Ship, bs: Seq<Bullet>) -> bool {
    exists|j: int| 0 <= j < bs.len() && hits(s, #[trigger] bs[j])
}

pub open spec fn bullet_spent(b: Bullet, ss: Seq<Ship>) -> bool {
    exists|i: int| 0 <= i < ss.len() && hits(#[trigger] ss[i], b)
}

pub open spec fn any_ship_hit(ss: Seq<Ship>, bs: Seq<Bullet>) -> bool {
    exists|i: int| 0 <= i < ss.len() && ship_hit(#[trigger] ss[i], bs)
}

/// Ships eliminated by `bs` whose owner is (`mine`) or is not player 0.
pub open spec fn eliminated_count(ss: Seq<Ship>, bs: Seq<Bullet>, mine: bool) -> nat {
    ss.filter(|s: Ship| ship_hit(s, bs) && (s.player.handle == 0) == mine).len()
}

pub open spec fn sat_add(a: u32, n: nat) -> u32 {
    if a + n > u32::MAX {
        u32::MAX
    } else {
        (a + n) as u32
    }
}

/// Every ship within reach of a bullet is eliminated, every bullet within
/// reach of a ship is spent, each elimination scores one point for the other
/// player, and any elimination ends the round.
pub open spec fn eliminate_stage(m: SimModel) -> SimModel {
    SimModel {
        ships: m.ships.filter(|s: Ship| !ship_hit(s, m.bullets)),
        bullets: m.bullets.filter(|b: Bullet| !bullet_spent(b, m.ships)),
        scores: Scores(
            sat_add(m.scores.0, eliminated_count(m.ships, m.bullets, false)),
            sat_add(m.scores.1, eliminated_count(m.ships, m.bullets, true)),
        ),
        round: if any_ship_hit(m.ships, m.bullets) {
            RollbackState::RoundEnd
        } else {
            m.round
        },
        ..m
    }
}

fn hit_exec(s: &Ship, b: &Bullet) -> (r: bool)
    requires
        ship_wf(*s),
        bullet_wf(*b),
    ensures
        r == hits(*s, *b),
{
    distance_squared(s.transform.translation, b.transform.translation) < HIT_DISTANCE * HIT_DISTANCE
}

fn ship_is_hit(s: &Ship, bs: &Vec<Bullet>) -> (r: bool)
    requires
        ship_wf(*s),
        forall|k: int| 0 <= k < bs@.len() ==> bullet_wf(#[trigger] bs@[k]),
    ensures
        r == ship_hit(*s, bs@),
{
    let mut j: usize = 0;
    while j < bs.len()
        invariant
            ship_wf(*s),
            forall|k: int| 0 <= k < bs@.len() ==> bullet_wf(#[trigger] bs@[k]),
            forall|k: int| 0 <= k < j ==> !hits(*s, #[trigger] bs@[k]),
        decreases bs.len() - j,
    {
        if hit_exec(s, &bs[j]) {
            return true;
        }
        j = j + 1;
    }
    false
}

fn bullet_is_spent(b: &Bullet, ss: &Vec<Ship>) -> (r: bool)
    requires
        bullet_wf(*b),
        forall|k: int| 0 <= k < ss@.len() ==> ship_wf(#[trigger] ss@[k]),
    ensures
        r == bullet_spent(*b, ss@),
{
    let mut i: usize = 0;
    while i < ss.len()
        invariant
            bullet_wf(*b),
            forall|k: int| 0 <= k < ss@.len() ==> ship_wf(#[trigger] ss@[k]),
            forall|k: int| 0 <= k < i ==> !hits(#[trigger] ss@[k], *b),
        decreases ss.len() - i,
    {
        if hit_exec(&ss[i], b) {
            return true;
        }
        i = i + 1;
    }
    false
}

fn sat_add_exec(a: u32, n: u32) -> (r: u32)
    ensures
        r == sat_add(a, n as nat),
{
    if a > u32::MAX - n {
        u32::MAX
    } else {
        a + n
    }
}

impl SimState {
    /// Elimination stage, see `eliminate_stage`.
    pub fn kill_players(&mut self)
        requires
            old(self)@.wf(),
        ensures
            final(self)@ == eliminate_stage(old(self)@),
            final(self)@.wf(),
    {
        let ghost ss = self.ships@;
        let ghost bs = self.bullets@;
        assert forall|k: int| 0 <= k < bs.len() implies bullet_wf(#[trigger] bs[k]) by {
            assert(bullet_wf(old(self)@.bullets[k]));
        }
        assert forall|k: int| 0 <= k < ss.len() implies ship_wf(#[trigger] ss[k]) by {
            assert(ship_wf(old(self)@.ships[k]));
        }
        let ghost p_alive = |s: Ship| !ship_hit(s, bs);
        let ghost p_other = |s: Ship| ship_hit(s, bs) && (s.player.handle == 0) == false;
        let ghost p_mine = |s: Ship| ship_hit(s, bs) && (s.player.handle == 0) == true;
        let mut survivors: Vec<Ship> = Vec::new();
        let mut other: u32 = 0;
        let mut mine: u32 = 0;
        let mut any = false;
        let mut i: usize = 0;
        while i < self.ships.len()
            invariant
                self.ships@ == ss,
                self.bullets@ == bs,
                ss.len() <= NUM_PLAYERS,
                0 <= i <= ss.len(),
                p_alive == (|s: Ship| !ship_hit(s, bs)),
                p_other == (|s: Ship| ship_hit(s, bs) && (s.player.handle == 0) == false),
                p_mine == (|s: Ship| ship_hit(s, bs) && (s.player.handle == 0) == true),
                forall|k: int| 0 <= k < bs.len() ==> bullet_wf(#[trigger] bs[k]),
                forall|k: int| 0 <= k < ss.len() ==> ship_wf(#[trigger] ss[k]),
                survivors@ == ss.subrange(0, i as int).filter(p_alive),
                other as nat == ss.subrange(0, i as int).filter(p_other).len(),
                mine as nat == ss.subrange(0, i as int).filter(p_mine).len(),
                other <= i && mine <= i,
                forall|k: int| 0 <= k < survivors@.len() ==> ship_wf(#[trigger] survivors@[k]),
                any == (exists|k: int| 0 <= k < i && ship_hit(#[trigger] ss[k], bs)),
            decreases ss.len() - i,
        {
            let s = self.ships[i];
            let ghost sub = ss.subrange(0, i as int);
            assert(ss.subrange(0, i as int + 1) =~= sub.push(s));
            proof {
                sub.lemma_filter_push(s, p_alive);
                sub.lemma_filter_push(s, p_other);
                sub.lemma_filter_push(s, p_mine);
            }
            if ship_is_hit(&s, &self.bullets) {
                any = true;
                if s.player.handle == 0 {
                    mine = mine + 1;
                } else {
                    other = other + 1;
                }
            } else {
                survivors.push(s);
            }
            i = i + 1;
        }
        assert(ss.subrange(0, ss.len() as int) =~= ss);
        let ghost q_spent = |b: Bullet| !bullet_spent(b, ss);
        let mut kept: Vec<Bullet> = Vec::new();
        let mut j: usize = 0;
        while j < self.bullets.len()
            invariant
                self.ships@ == ss,
                self.bullets@ == bs,
                0 <= j <= bs.len(),
                q_spent == (|b: Bullet| !bullet_spent(b, ss)),
                forall|k: int| 0 <= k < bs.len() ==> bullet_wf(#[trigger] bs[k]),
                forall|k: int| 0 <= k < ss.len() ==> ship_wf(#[trigger] ss[k]),
                kept@ == bs.subrange(0, j as int).filter(q_spent),
                forall|k: int| 0 <= k < kept@.len() ==> bullet_wf(#[trigger] kept@[k]),
            decreases bs.len() - j,
        {
            let b = self.bullets[j];
            let ghost sub = bs.subrange(0, j as int);
            assert(bs.subrange(0, j as int + 1) =~= sub.push(b));
            proof {
                sub.lemma_filter_push(b, q_spent);
            }
            if !bullet_is_spent(&b, &self.ships) {
                kept.push(b);
            }
            j = j + 1;
        }
        assert(bs.subrange(0, bs.len() as int) =~= bs);
        proof {
            ss.lemma_filter_len(p_alive);
        }
        self.scores = Scores(sat_add_exec(self.scores.0, other), sat_add_exec(self.scores.1, mine));
        if any {
            self.round = RollbackState::RoundEnd;
        }
        self.ships = survivors;
        self.bullets = kept;
    }
}


// ---------------------------------------------------------------- round lifecycle

/// Centre of the cube along each axis.
pub const ARENA_CENTER: i64 = 8388608;

/// Half the distance between the two spawn points (fifty world units).
pub const SPAWN_HALF_GAP: i64 = 204800;

/// The ship a player starts a round with: player 0 west of the centre facing
/// east, player 1 east of it facing west.
pub open spec fn spawn_ship(handle: usize) -> Ship {
    let h: u8 = if handle == 0 { 0 } else { 4 };
    let x: i64 = if handle == 0 { (ARENA_CENTER - SPAWN_HALF_GAP) as i64 } else { (ARENA_CENTER + SPAWN_HALF_GAP) as i64 };
    Ship {
        player: Player { handle },
        transform: Transform {
            translation: Vec3i { x, y: ARENA_CENTER, z: ARENA_CENTER },
            rotation: FaceDir(h),
        },
        speed: START_SPEED,
        velocity: Velocity(scaled(move_dir_spec(FaceDir(h)), START_SPEED as int)),
        acceleration: Acceleration(Vec3i { x: 0, y: 0, z: 0 }),
        ready: BulletReady(true),
    }
}

/// A fresh round: both ships at their spawn points, no bullets, the given scores.
pub open spec fn respawned(scores: Scores) -> SimModel {
    SimModel {
        ships: seq![spawn_ship(0), spawn_ship(1)],
        bullets: Seq::empty(),
        scores,
        round: RollbackState::InRound,
        round_end_timer: 0,
    }
}

/// Round-end stage: the timer counts a frame; when it has run its full length
/// the next round starts.
pub open spec fn timeout_stage(m: SimModel) -> SimModel {
    if m.round_end_timer + 1 >= ROUND_END_FRAMES {
        respawned(m.scores)
    } else {
        SimModel { round_end_timer: (m.round_end_timer + 1) as u32, ..m }
    }
}

/// One frame of simulation: in a round, movement, cooldown, spawn, projectile
/// advance and elimination, in that order; after a round, the round-end timer.
#[verifier::opaque]
pub open spec fn step_spec(m: SimModel, inputs: Seq<PlayerInput>) -> SimModel {
    match m.round {
        RollbackState::InRound => eliminate_stage(
            advance_stage(fire_stage(reload_stage(move_stage(m, inputs), inputs), inputs)),
        ),
        RollbackState::RoundEnd => timeout_stage(m),
    }
}

fn spawn_ship_exec(handle: usize) -> (r: Ship)
    requires
        handle < NUM_PLAYERS,
    ensures
        r == spawn_ship(handle),
        ship_wf(r),
{
    let h: u8 = if handle == 0 { 0 } else { 4 };
    let x: i64 = if handle == 0 { ARENA_CENTER - SPAWN_HALF_GAP } else { ARENA_CENTER + SPAWN_HALF_GAP };
    let d = MoveDir::of(FaceDir(h));
    Ship {
        player: Player { handle },
        transform: Transform {
            translation: Vec3i { x, y: ARENA_CENTER, z: ARENA_CENTER },
            rotation: FaceDir(h),
        },
        speed: START_SPEED,
        velocity: Velocity(scale_dir(d, START_SPEED as i64)),
        acceleration: Acceleration(Vec3i { x: 0, y: 0, z: 0 }),
        ready: BulletReady(true),
    }
}

impl SimState {
    /// The state a game starts in: a fresh round with no points scored.
    pub fn new() -> (r: SimState)
        ensures
            r@ == respawned(Scores(0, 0)),
            r@.wf(),
    {
        let mut r = SimState {
            ships: Vec::new(),
            bullets: Vec::new(),
            scores: Scores(0, 0),
            round: RollbackState::InRound,
            round_end_timer: 0,
        };
        r.spawn_players();
        r
    }

    /// Starts a round: every ship and bullet is removed and both ships are
    /// placed at their spawn points; scores are kept.
    pub fn spawn_players(&mut self)
        ensures
            final(self)@ == respawned(old(self).scores),
            final(self)@.wf(),
    {
        let s0 = spawn_ship_exec(0);
        let s1 = spawn_ship_exec(1);
        self.ships = vec![s0, s1];
        self.bullets = Vec::new();
        self.round = RollbackState::InRound;
        self.round_end_timer = 0;
        assert(self.ships@ =~= seq![spawn_ship(0), spawn_ship(1)]);
    }

    /// Round-end stage, see `timeout_stage`.
    pub fn round_end_timeout(&mut self)
        requires
            old(self)@.wf(),
        ensures
            final(self)@ == timeout_stage(old(self)@),
            final(self)@.wf(),
    {
        if self.round_end_timer + 1 >= ROUND_END_FRAMES {
            self.spawn_players();
        } else {
            self.round_end_timer = self.round_end_timer + 1;
        }
    }

    /// Runs one frame of the pipeline on the players' inputs, indexed by handle.
    pub fn step(&mut self, inputs: &Vec<PlayerInput>)
        requires
            old(self)@.wf(),
            inputs_wf(inputs@),
        ensures
            final(self)@ == step_spec(old(self)@, inputs@),
            final(self)@.wf(),
    {
        reveal(step_spec);
        match self.round {
            RollbackState::InRound => {
                self.move_players(inputs);
                self.reload_bullet(inputs);
                self.fire_bullets(inputs);
                self.move_bullet();
                self.kill_players();
            },
            RollbackState::RoundEnd => {
                self.round_end_timeout();
            },
        }
    }
}


// ---------------------------------------------------------------- laws

/// Frames one after another, one element of `inputs` each.
pub open spec fn run_spec(m: SimModel, inputs: Seq<Seq<PlayerInput>>) -> SimModel
    decreases inputs.len(),
{
    if inputs.len() == 0 {
        m
    } else {
        step_spec(run_spec(m, inputs.drop_last()), inputs.last())
    }
}

proof fn lemma_filter_count<T>(s: Seq<T>, p: spec_fn(T) -> bool, i: int)
    requires
        0 <= i <= s.len(),
        forall|j: int| 0 <= j < s.len() && j != i ==> !p(#[trigger] s[j]),
    ensures
        s.filter(p).len() == if i < s.len() && p(s[i]) { 1nat } else { 0nat },
    decreases s.len(),
{
    if s.len() > 0 {
        let d = s.drop_last();
        assert(d.push(s.last()) =~= s);
        d.lemma_filter_push(s.last(), p);
        if i < d.len() {
            lemma_filter_count(d, p, i);
        } else {
            lemma_filter_count(d, p, d.len() as int);
        }
    }
}

/// A bullet within reach of exactly one ship eliminates it: the round ends,
/// that ship is gone, the other player scores exactly one point and the
/// eliminated ship's player none.
pub proof fn lemma_elimination_ends_round(m: SimModel, i: int, j: int)
    requires
        m.wf(),
        m.round == RollbackState::InRound,
        0 <= i < m.ships.len(),
        0 <= j < m.bullets.len(),
        hits(m.ships[i], m.bullets[j]),
        forall|k: int| 0 <= k < m.ships.len() && k != i ==> !ship_hit(#[trigger] m.ships[k], m.bullets),
        m.scores.0 < u32::MAX,
        m.scores.1 < u32::MAX,
    ensures
        eliminate_stage(m).round == RollbackState::RoundEnd,
        eliminate_stage(m).ships.len() == m.ships.len() - 1,
        forall|k: int|
            0 <= k < eliminate_stage(m).ships.len() ==> !ship_hit(
                #[trigger] eliminate_stage(m).ships[k],
                m.bullets,
            ),
        m.ships[i].player.handle == 0 ==> eliminate_stage(m).scores == Scores(
            m.scores.0,
            (m.scores.1 + 1) as u32,
        ),
        m.ships[i].player.handle != 0 ==> eliminate_stage(m).scores == Scores(
            (m.scores.0 + 1) as u32,
            m.scores.1,
        ),
{
    let bs = m.bullets;
    assert(ship_hit(m.ships[i], bs));
    assert(any_ship_hit(m.ships, bs));
    let p_alive = |s: Ship| !ship_hit(s, bs);
    let p_other = |s: Ship| ship_hit(s, bs) && (s.player.handle == 0) == false;
    let p_mine = |s: Ship| ship_hit(s, bs) && (s.player.handle == 0) == true;
    lemma_filter_count(m.ships, p_other, i);
    lemma_filter_count(m.ships, p_mine, i);
    let not_alive = |s: Ship| ship_hit(s, bs);
    lemma_filter_count(m.ships, not_alive, i);
    lemma_filter_partition(m.ships, bs);
    assert forall|k: int| 0 <= k < eliminate_stage(m).ships.len() implies !ship_hit(
        #[trigger] eliminate_stage(m).ships[k],
        m.bullets,
    ) by {
        m.ships.lemma_filter_pred(p_alive, k);
    }
}

proof fn lemma_filter_partition(ss: Seq<Ship>, bs: Seq<Bullet>)
    ensures
        ss.filter(|s: Ship| !ship_hit(s, bs)).len() + ss.filter(|s: Ship| ship_hit(s, bs)).len()
            == ss.len(),
    decreases ss.len(),
{
    if ss.len() > 0 {
        let d = ss.drop_last();
        assert(d.push(ss.last()) =~= ss);
        d.lemma_filter_push(ss.last(), |s: Ship| !ship_hit(s, bs));
        d.lemma_filter_push(ss.last(), |s: Ship| ship_hit(s, bs));
        lemma_filter_partition(d, bs);
    }
}

proof fn lemma_round_end_prefix(m: SimModel, inputs: Seq<Seq<PlayerInput>>, n: int)
    requires
        m.wf(),
        m.round == RollbackState::RoundEnd,
        0 <= n < ROUND_END_FRAMES - m.round_end_timer,
        n <= inputs.len(),
    ensures
        run_spec(m, inputs.subrange(0, n)) == (SimModel {
            round_end_timer: (m.round_end_timer + n) as u32,
            ..m
        }),
    decreases n,
{
    if n > 0 {
        let sub = inputs.subrange(0, n);
        assert(sub.drop_last() =~= inputs.subrange(0, n - 1));
        lemma_round_end_prefix(m, inputs, n - 1);
        reveal(step_spec);
    } else {
        assert(inputs.subrange(0, 0).len() == 0);
    }
}

/// After an elimination the round stays over, with the scores untouched,
/// until the round-end timer has run its full length whatever the inputs;
/// then a new round starts with both ships respawned and no bullets.
pub proof fn lemma_round_end_restarts(m: SimModel, inputs: Seq<Seq<PlayerInput>>)
    requires
        m.wf(),
        m.round == RollbackState::RoundEnd,
        inputs.len() == ROUND_END_FRAMES - m.round_end_timer,
    ensures
        forall|n: int|
            0 <= n < inputs.len() ==> (#[trigger] run_spec(m, inputs.subrange(0, n))).round
                == RollbackState::RoundEnd && run_spec(m, inputs.subrange(0, n)).scores == m.scores,
        run_spec(m, inputs) == respawned(m.scores),
{
    assert forall|n: int| 0 <= n < inputs.len() implies (#[trigger] run_spec(
        m,
        inputs.subrange(0, n),
    )).round == RollbackState::RoundEnd && run_spec(m, inputs.subrange(0, n)).scores
        == m.scores by {
        lemma_round_end_prefix(m, inputs, n);
    }
    let n = inputs.len() - 1;
    lemma_round_end_prefix(m, inputs, n);
    assert(inputs.drop_last() =~= inputs.subrange(0, n));
    reveal(step_spec);
}


} // verus!
