use rollback_sim::game::SimState;
use rollback_sim::math::{Vec3i, FINITE_CUBE_SIZE};
use rollback_sim::radar::RadarPlugin;

#[test]
fn radar_lists_remote_ships_relative_to_local() {
    let state = SimState::new();
    let contacts = RadarPlugin::contacts(&state.ships, &vec![0]).unwrap();
    let a = state.ships[0].transform.translation;
    let b = state.ships[1].transform.translation;
    assert_eq!(contacts, vec![Vec3i::new(b.x - a.x, b.y - a.y, b.z - a.z)]);
}

#[test]
fn radar_sees_across_the_wrap() {
    let mut state = SimState::new();
    state.ships[0].transform.translation = Vec3i::new(100, 100, 100);
    state.ships[1].transform.translation = Vec3i::new(FINITE_CUBE_SIZE - 100, 100, 100);
    let contacts = RadarPlugin::contacts(&state.ships, &vec![1]).unwrap();
    assert_eq!(contacts, vec![Vec3i::new(200, 0, 0)]);
}

#[test]
fn radar_without_local_ship_is_cleared() {
    let mut state = SimState::new();
    state.ships.remove(0);
    assert_eq!(RadarPlugin::contacts(&state.ships, &vec![0]), None);
    assert_eq!(RadarPlugin::contacts(&state.ships, &vec![]), None);
    assert_eq!(RadarPlugin::contacts(&state.ships, &vec![0, 1]), Some(vec![]));
}
