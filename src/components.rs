use vstd::prelude::*;
use std::hash::BuildHasher;
use bevy::utils::FixedState;
use crate::math::{Vec3i, in_cube};

verus! {

/// Number of distinct headings; heading `h` points `45 * h` degrees
/// counterclockwise from the +x axis.
pub const HEADINGS: u8 = 8;

/// Length of a unit direction, in subunits per speed step.
pub const DIR_SCALE: i64 = 256;

/// The player handle a ship belongs to.
#[derive(Clone, Copy, Debug, PartialEq, Eq, Structural)]
pub struct Player {
    pub handle: usize,
}

/// Whether a ship may fire: cleared by firing, set again once fire is released.
#[derive(Clone, Copy, Debug, PartialEq, Eq, Structural)]
pub struct BulletReady(pub bool);

/// A heading index in `0..HEADINGS`.
#[derive(Clone, Copy, Debug, PartialEq, Eq, Structural)]
pub struct FaceDir(pub u8);

/// The direction of a heading in the xy plane, scaled to `DIR_SCALE`.
#[derive(Clone, Copy, Debug, PartialEq, Eq, Structural)]
pub struct MoveDir(pub Vec3i);

/// Displacement per frame.
#[derive(Clone, Copy, Debug, PartialEq, Eq, Structural)]
pub struct Velocity(pub Vec3i);

/// Change of velocity over the last frame.
#[derive(Clone, Copy, Debug, PartialEq, Eq, Structural)]
pub struct Acceleration(pub Vec3i);

/// Where an entity is and which way it points.
#[derive(Clone, Copy, Debug, PartialEq, Eq, Structural)]
pub struct Transform {
    pub translation: Vec3i,
    pub rotation: FaceDir,
}

pub open spec fn transform_valid(t: Transform) -> bool {
    in_cube(t.translation) && t.rotation.0 < HEADINGS
}

pub open spec fn dir_x(h: int) -> i64 {
    if h == 0 {
        256
    } else if h == 1 || h == 7 {
        181
    } else if h == 2 || h == 6 {
        0
    } else if h == 3 || h == 5 {
        -181i64
    } else {
        -256i64
    }
}

pub open spec fn dir_y(h: int) -> i64 {
    dir_x(if h >= 2 { h - 2 } else { h + 6 })
}

pub open spec fn move_dir_spec(f: FaceDir) -> MoveDir {
    MoveDir(Vec3i { x: dir_x(f.0 as int), y: dir_y(f.0 as int), z: 0 })
}

fn dir_component(h: u8) -> (r: i64)
    requires
        h < HEADINGS,
    ensures
        r == dir_x(h as int),
        -DIR_SCALE <= r <= DIR_SCALE,
{
    if h == 0 {
        256
    } else if h == 1 || h == 7 {
        181
    } else if h == 2 || h == 6 {
        0
    } else if h == 3 || h == 5 {
        -181
    } else {
        -256
    }
}

impl MoveDir {
    /// The direction a heading points in, each component within `DIR_SCALE`.
    pub fn of(f: FaceDir) -> (r: MoveDir)
        requires
            f.0 < HEADINGS,
        ensures
            r == move_dir_spec(f),
            -DIR_SCALE <= r.0.x <= DIR_SCALE,
            -DIR_SCALE <= r.0.y <= DIR_SCALE,
    {
        let hy: u8 = if f.0 >= 2 { f.0 - 2 } else { f.0 + 6 };
        MoveDir(Vec3i { x: dir_component(f.0), y: dir_component(hy), z: 0 })
    }
}

/// What the fixed-seed hasher gives for a sequence of words.
pub uninterp spec fn fixed_hash_of(words: Seq<u64>) -> u64;

/// Relies on bevy::utils::FixedState, a BuildHasher of aHash built from four
/// constant seeds: within one build of the program the value depends on the
/// words alone, with no per-process seed.
#[verifier::external_body]
fn fixed_hash(words: &[u64]) -> (r: u64)
    ensures
        r == fixed_hash_of(words@),
{
    FixedState.hash_one(words)
}

pub open spec fn vec_words(v: Vec3i) -> Seq<u64> {
    seq![v.x as u64, v.y as u64, v.z as u64]
}

pub open spec fn transform_words(t: Transform) -> Seq<u64> {
    vec_words(t.translation).push(t.rotation.0 as u64)
}

/// Hashes a whole word sequence with the fixed-seed hasher.
pub fn checksum_words(words: &Vec<u64>) -> (r: u64)
    ensures
        r == fixed_hash_of(words@),
{
    fixed_hash(words.as_slice())
}

/// The heading itself is its checksum.
pub fn checksum_face_dir(face_dir: &FaceDir) -> (r: u64)
    ensures
        r == face_dir.0 as u64,
{
    face_dir.0 as u64
}

pub fn checksum_velocity(velocity: &Velocity) -> (r: u64)
    ensures
        r == fixed_hash_of(vec_words(velocity.0)),
{
    let v = velocity.0;
    let words: Vec<u64> = vec![v.x as u64, v.y as u64, v.z as u64];
    assert(words@ =~= vec_words(v));
    checksum_words(&words)
}

pub fn checksum_acceleration(acceleration: &Acceleration) -> (r: u64)
    ensures
        r == fixed_hash_of(vec_words(acceleration.0)),
{
    let a = acceleration.0;
    let words: Vec<u64> = vec![a.x as u64, a.y as u64, a.z as u64];
    assert(words@ =~= vec_words(a));
    checksum_words(&words)
}

/// Checksum of a position and heading. A position outside the cube or a
/// heading out of range is a simulation defect and is not hashed.
pub fn checksum_transform(transform: &Transform) -> (r: u64)
    requires
        transform_valid(*transform),
    ensures
        r == fixed_hash_of(transform_words(*transform)),
{
    let t = transform.translation;
    let words: Vec<u64> = vec![t.x as u64, t.y as u64, t.z as u64, transform.rotation.0 as u64];
    assert(words@ =~= transform_words(*transform));
    checksum_words(&words)
}

} // verus!
