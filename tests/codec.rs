use rollback_sim::components::FaceDir;
use rollback_sim::input::{
    angular_thrust_pitch, angular_thrust_roll, read_local_inputs_prematch, read_local_inputs, fire, RawControls,
    Stick, INPUT_DOWN, INPUT_FIRE, INPUT_LEFT, INPUT_RIGHT, INPUT_UP, PITCH_SPEED, ROLL_SPEED,
};

fn controls() -> RawControls {
    RawControls { up: false, down: false, left: false, right: false, fire: false, stick: None }
}

#[test]
fn zeroed_input_is_neutral() {
    let input = [0u8, 0, 0];
    assert!(!fire(input));
    assert_eq!(angular_thrust_pitch(input), 0);
    assert_eq!(angular_thrust_roll(input), 0);
}

#[test]
fn fire_bit_alone_keeps_intents_neutral() {
    let input = [INPUT_FIRE, 0, 0];
    assert!(fire(input));
    assert_eq!(angular_thrust_pitch(input), 0);
    assert_eq!(angular_thrust_roll(input), 0);
}

#[test]
fn keys_win_over_stick() {
    assert_eq!(angular_thrust_pitch([INPUT_DOWN | INPUT_UP, 0, 50]), -PITCH_SPEED);
    assert_eq!(angular_thrust_pitch([INPUT_UP, 0, 50]), PITCH_SPEED);
    assert_eq!(angular_thrust_roll([INPUT_LEFT | INPUT_RIGHT, 30, 0]), -ROLL_SPEED);
    assert_eq!(angular_thrust_roll([INPUT_RIGHT, 30, 0]), ROLL_SPEED);
}

#[test]
fn stick_axes_are_signed_bytes() {
    assert_eq!(angular_thrust_pitch([0, 0, (-37i8) as u8]), -37);
    assert_eq!(angular_thrust_roll([0, 100, 0]), 100);
    assert_eq!(angular_thrust_roll([0, (-128i8) as u8, 0]), -128);
}

#[test]
fn prematch_encoding_packs_keys_and_stick() {
    let mut c = controls();
    c.up = true;
    c.fire = true;
    c.stick = Some(Stick { x: -20, y: 75 });
    let input = read_local_inputs_prematch(&c);
    assert_eq!(input, [INPUT_UP | INPUT_FIRE, (-20i8) as u8, 75]);
    assert!(fire(input));
    assert_eq!(angular_thrust_pitch(input), PITCH_SPEED);
    assert_eq!(angular_thrust_roll(input), -20);
}

#[test]
fn prematch_encoding_without_drag_has_zero_axes() {
    let mut c = controls();
    c.down = true;
    c.right = true;
    assert_eq!(read_local_inputs_prematch(&c), [INPUT_DOWN | INPUT_RIGHT, 0, 0]);
}

#[test]
fn steering_turns_toward_the_stick() {
    let mut c = controls();
    // Facing east, stick pointing north: a quarter turn counterclockwise.
    c.stick = Some(Stick { x: 0, y: 100 });
    assert_eq!(read_local_inputs(&c, FaceDir(0)), [INPUT_LEFT, 0, 0]);
    // Facing north, stick pointing east: turn clockwise.
    c.stick = Some(Stick { x: 100, y: 0 });
    assert_eq!(read_local_inputs(&c, FaceDir(2)), [INPUT_RIGHT, 0, 0]);
    // Stick straight behind: turn clockwise.
    c.stick = Some(Stick { x: -100, y: 0 });
    assert_eq!(read_local_inputs(&c, FaceDir(0)), [INPUT_RIGHT, 0, 0]);
    // Already facing the stick's direction.
    c.stick = Some(Stick { x: 70, y: 70 });
    assert_eq!(read_local_inputs(&c, FaceDir(1)), [0, 0, 0]);
}

#[test]
fn steering_centred_stick_keeps_keys() {
    let mut c = controls();
    c.fire = true;
    c.left = true;
    c.stick = Some(Stick { x: 0, y: 0 });
    assert_eq!(read_local_inputs(&c, FaceDir(3)), [INPUT_FIRE | INPUT_LEFT, 0, 0]);
}
