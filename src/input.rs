use vstd::prelude::*;
use crate::components::FaceDir;

verus! {

pub const INPUT_UP: u8 = 1;
pub const INPUT_DOWN: u8 = 2;
pub const INPUT_LEFT: u8 = 4;
pub const INPUT_RIGHT: u8 = 8;
pub const INPUT_FIRE: u8 = 16;

/// Pitch rate, in degrees per second, of a full stick or a held key. The stick
/// is quantized to hundredths of full deflection, so its value is the rate.
pub const PITCH_SPEED: i32 = 100;

/// Roll rate, in degrees per second, of a full stick or a held key.
pub const ROLL_SPEED: i32 = 100;

/// One frame's input of one player: a button byte and two stick axes, each a
/// signed byte stored as its two's complement.
pub type PlayerInput = [u8; 3];

/// A stick deflection quantized to hundredths of full travel.
#[derive(Clone, Copy, Debug, PartialEq, Eq, Structural)]
pub struct Stick {
    pub x: i8,
    pub y: i8,
}

/// What the local devices report for one frame, already reduced to plain values.
#[derive(Clone, Copy, Debug, PartialEq, Eq, Structural)]
pub struct RawControls {
    pub up: bool,
    pub down: bool,
    pub left: bool,
    pub right: bool,
    pub fire: bool,
    /// The last drag of the on-screen stick, if any.
    pub stick: Option<Stick>,
}

pub open spec fn bit(on: bool, mask: u8) -> u8 {
    if on {
        mask
    } else {
        0
    }
}

pub open spec fn button_byte(up: bool, down: bool, left: bool, right: bool, fire: bool) -> u8 {
    bit(up, INPUT_UP) | bit(down, INPUT_DOWN) | bit(left, INPUT_LEFT) | bit(right, INPUT_RIGHT)
        | bit(fire, INPUT_FIRE)
}

pub open spec fn has_bit(b: u8, mask: u8) -> bool {
    b & mask != 0
}

pub open spec fn fire_spec(input: PlayerInput) -> bool {
    has_bit(input[0], INPUT_FIRE)
}

pub open spec fn pitch_spec(input: PlayerInput) -> int {
    if has_bit(input[0], INPUT_DOWN) {
        -PITCH_SPEED
    } else if has_bit(input[0], INPUT_UP) {
        PITCH_SPEED as int
    } else {
        (input[2] as i8) as int
    }
}

pub open spec fn roll_spec(input: PlayerInput) -> int {
    if has_bit(input[0], INPUT_LEFT) {
        -ROLL_SPEED
    } else if has_bit(input[0], INPUT_RIGHT) {
        ROLL_SPEED as int
    } else {
        (input[1] as i8) as int
    }
}

fn bit_if(on: bool, mask: u8) -> (r: u8)
    ensures
        r == bit(on, mask),
{
    if on {
        mask
    } else {
        0
    }
}

fn pack_buttons(up: bool, down: bool, left: bool, right: bool, fire: bool) -> (r: u8)
    ensures
        r == button_byte(up, down, left, right, fire),
{
    bit_if(up, INPUT_UP) | bit_if(down, INPUT_DOWN) | bit_if(left, INPUT_LEFT) | bit_if(
        right,
        INPUT_RIGHT,
    ) | bit_if(fire, INPUT_FIRE)
}

/// Encodes the controls as read before a match: the keys go to the button
/// byte, the stick's axes to the two axis bytes (zero without a drag).
pub fn read_local_inputs_prematch(c: &RawControls) -> (r: PlayerInput)
    ensures
        r[0] == button_byte(c.up, c.down, c.left, c.right, c.fire),
        r[1] == (match c.stick {
            Some(s) => s.x as u8,
            None => 0u8,
        }),
        r[2] == (match c.stick {
            Some(s) => s.y as u8,
            None => 0u8,
        }),
{
    let b = pack_buttons(c.up, c.down, c.left, c.right, c.fire);
    match c.stick {
        Some(s) => [b, s.x as u8, s.y as u8],
        None => [b, 0, 0],
    }
}

/// Whether the fire button is held.
pub fn fire(input: PlayerInput) -> (r: bool)
    ensures
        r == fire_spec(input),
{
    input[0] & INPUT_FIRE != 0
}

/// Pitch rate in degrees per second: the down key wins over the up key, and
/// either wins over the stick's vertical axis.
pub fn angular_thrust_pitch(input: PlayerInput) -> (r: i32)
    ensures
        r == pitch_spec(input),
{
    if input[0] & INPUT_DOWN != 0 {
        -PITCH_SPEED
    } else if input[0] & INPUT_UP != 0 {
        PITCH_SPEED
    } else {
        (input[2] as i8) as i32
    }
}

/// Roll rate in degrees per second: the left key wins over the right key, and
/// either wins over the stick's horizontal axis.
pub fn angular_thrust_roll(input: PlayerInput) -> (r: i32)
    ensures
        r == roll_spec(input),
{
    if input[0] & INPUT_LEFT != 0 {
        -ROLL_SPEED
    } else if input[0] & INPUT_RIGHT != 0 {
        ROLL_SPEED
    } else {
        (input[1] as i8) as i32
    }
}

/// Decoding reads back what encoding stored: each button from its own bit,
/// whatever the other buttons hold.
pub proof fn lemma_button_bits_decode(up: bool, down: bool, left: bool, right: bool, fire: bool)
    ensures
        has_bit(button_byte(up, down, left, right, fire), INPUT_UP) == up,
        has_bit(button_byte(up, down, left, right, fire), INPUT_DOWN) == down,
        has_bit(button_byte(up, down, left, right, fire), INPUT_LEFT) == left,
        has_bit(button_byte(up, down, left, right, fire), INPUT_RIGHT) == right,
        has_bit(button_byte(up, down, left, right, fire), INPUT_FIRE) == fire,
{
    let (a, b, c, d, e) = (bit(up, 1), bit(down, 2), bit(left, 4), bit(right, 8), bit(fire, 16));
    assert((a == 0 || a == 1) && (b == 0 || b == 2) && (c == 0 || c == 4) && (d == 0 || d == 8)
        && (e == 0 || e == 16));
    assert(((a | b | c | d | e) & 1 != 0) == (a == 1) && ((a | b | c | d | e) & 2 != 0) == (b == 2)
        && ((a | b | c | d | e) & 4 != 0) == (c == 4) && ((a | b | c | d | e) & 8 != 0) == (d == 8)
        && ((a | b | c | d | e) & 16 != 0) == (e == 16)) by (bit_vector)
        requires
            (a == 0 || a == 1) && (b == 0 || b == 2) && (c == 0 || c == 4) && (d == 0 || d == 8)
                && (e == 0 || e == 16),
    ;
}

/// A zeroed input holds no fire and neutral intents; an input with only the
/// fire bit holds fire and still neutral intents.
pub proof fn lemma_decode_boundary()
    ensures
        !fire_spec([0u8, 0u8, 0u8]),
        pitch_spec([0u8, 0u8, 0u8]) == 0,
        roll_spec([0u8, 0u8, 0u8]) == 0,
        fire_spec([INPUT_FIRE, 0u8, 0u8]),
        pitch_spec([INPUT_FIRE, 0u8, 0u8]) == 0,
        roll_spec([INPUT_FIRE, 0u8, 0u8]) == 0,
{
    assert(0u8 & 16u8 == 0 && 0u8 & 1u8 == 0 && 0u8 & 2u8 == 0 && 0u8 & 4u8 == 0 && 0u8 & 8u8 == 0)
        by (bit_vector);
    assert(16u8 & 16u8 != 0 && 16u8 & 1u8 == 0 && 16u8 & 2u8 == 0 && 16u8 & 4u8 == 0 && 16u8 & 8u8
        == 0) by (bit_vector);
}


/// The heading, among the eight, nearest to the stick's direction. Octant
/// edges are taken at a slope of 2/5, close to tan(22.5 degrees).
pub open spec fn stick_heading(x: int, y: int) -> int {
    let ax = if x < 0 { -x } else { x };
    let ay = if y < 0 { -y } else { y };
    if 5 * ay < 2 * ax {
        if x > 0 { 0 } else { 4 }
    } else if 5 * ax < 2 * ay {
        if y > 0 { 2 } else { 6 }
    } else if x > 0 {
        if y > 0 { 1 } else { 7 }
    } else {
        if y > 0 { 3 } else { 5 }
    }
}

/// Eighths of a turn, counterclockwise, from the heading `face` to the
/// stick's direction; 0 for a centred stick.
pub open spec fn steer_offset(face: FaceDir, stick: Option<Stick>) -> int {
    match stick {
        Some(s) => if s.x == 0 && s.y == 0 {
            0
        } else {
            (stick_heading(s.x as int, s.y as int) - face.0 + 8) % 8
        },
        None => 0,
    }
}

pub open spec fn steer_left(face: FaceDir, stick: Option<Stick>) -> bool {
    1 <= steer_offset(face, stick) <= 3
}

pub open spec fn steer_right(face: FaceDir, stick: Option<Stick>) -> bool {
    steer_offset(face, stick) >= 4
}

fn stick_heading_exec(x: i8, y: i8) -> (r: u8)
    requires
        !(x == 0 && y == 0),
    ensures
        r as int == stick_heading(x as int, y as int),
        r < 8,
{
    let ax: i32 = if x < 0 { -(x as i32) } else { x as i32 };
    let ay: i32 = if y < 0 { -(y as i32) } else { y as i32 };
    if 5 * ay < 2 * ax {
        if x > 0 { 0 } else { 4 }
    } else if 5 * ax < 2 * ay {
        if y > 0 { 2 } else { 6 }
    } else if x > 0 {
        if y > 0 { 1 } else { 7 }
    } else {
        if y > 0 { 3 } else { 5 }
    }
}

/// Encodes the controls as read during a match: the keys go to the button
/// byte, and a dragged stick turns toward its direction by setting the left
/// bit (counterclockwise, up to three eighths) or the right bit (otherwise);
/// the axis bytes stay zero.
pub fn read_local_inputs(c: &RawControls, face: FaceDir) -> (r: PlayerInput)
    requires
        face.0 < 8,
    ensures
        r[0] == button_byte(
            c.up,
            c.down,
            c.left || steer_left(face, c.stick),
            c.right || steer_right(face, c.stick),
            c.fire,
        ),
        r[1] == 0,
        r[2] == 0,
{
    let mut offset: u8 = 0;
    match c.stick {
        Some(s) => {
            if !(s.x == 0 && s.y == 0) {
                let target = stick_heading_exec(s.x, s.y);
                offset = (target + 8 - face.0) % 8;
            }
        },
        None => {},
    }
    assert(offset as int == steer_offset(face, c.stick));
    let left = c.left || (1 <= offset && offset <= 3);
    let right = c.right || offset >= 4;
    [pack_buttons(c.up, c.down, left, right, c.fire), 0, 0]
}

} // verus!
