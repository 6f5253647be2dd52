use rollback_sim::components::{
    checksum_acceleration, checksum_face_dir, checksum_transform, checksum_velocity, Acceleration,
    BulletReady, FaceDir, MoveDir, Player, Transform, Velocity,
};
use rollback_sim::game::{
    Bullet, RollbackState, Scores, Ship, SimState, ARENA_CENTER, BULLET_TTL,
    ROUND_END_FRAMES, SPAWN_HALF_GAP, START_SPEED,
};
use rollback_sim::input::{INPUT_FIRE, INPUT_LEFT, INPUT_UP};
use rollback_sim::math::Vec3i;

const IDLE: [u8; 3] = [0, 0, 0];

fn run_until_round_end(state: &mut SimState, first: Vec<[u8; 3]>, limit: usize) -> usize {
    state.step(&first);
    let mut frames = 1;
    while state.round == RollbackState::InRound && frames < limit {
        state.step(&vec![IDLE, IDLE]);
        frames += 1;
    }
    frames
}

#[test]
fn spawn_places_ships_facing_each_other() {
    let state = SimState::new();
    assert_eq!(state.ships.len(), 2);
    assert!(state.bullets.is_empty());
    assert_eq!(state.scores, Scores(0, 0));
    assert_eq!(state.round, RollbackState::InRound);
    let a = state.ships[0];
    let b = state.ships[1];
    assert_eq!(a.player, Player { handle: 0 });
    assert_eq!(b.player, Player { handle: 1 });
    assert_eq!(a.transform.translation, Vec3i::new(ARENA_CENTER - SPAWN_HALF_GAP, ARENA_CENTER, ARENA_CENTER));
    assert_eq!(b.transform.translation, Vec3i::new(ARENA_CENTER + SPAWN_HALF_GAP, ARENA_CENTER, ARENA_CENTER));
    assert_eq!(a.transform.rotation, FaceDir(0));
    assert_eq!(b.transform.rotation, FaceDir(4));
    assert_eq!(a.velocity, Velocity(Vec3i::new(256 * START_SPEED as i64, 0, 0)));
    assert_eq!(b.velocity, Velocity(Vec3i::new(-256 * START_SPEED as i64, 0, 0)));
    assert_eq!(a.ready, BulletReady(true));
}

#[test]
fn movement_turns_throttles_and_moves() {
    let mut state = SimState::new();
    let before = state.ships[0];
    state.move_players(&vec![[INPUT_LEFT | INPUT_UP, 0, 0], IDLE]);
    let after = state.ships[0];
    assert_eq!(after.transform.rotation, FaceDir(1));
    assert_eq!(after.speed, START_SPEED + 1);
    let v = Vec3i::new(181 * 12, 181 * 12, 0);
    assert_eq!(after.velocity, Velocity(v));
    assert_eq!(
        after.acceleration,
        Acceleration(Vec3i::new(v.x - before.velocity.0.x, v.y, 0))
    );
    let t = before.transform.translation;
    assert_eq!(after.transform.translation, Vec3i::new(t.x + v.x, t.y + v.y, t.z));
    // The other ship just coasts.
    assert_eq!(state.ships[1].transform.translation.x, ARENA_CENTER + SPAWN_HALF_GAP - 256 * START_SPEED as i64);
}

#[test]
fn firing_spawns_one_volley_until_released() {
    let mut state = SimState::new();
    let fire0 = vec![[INPUT_FIRE, 0, 0], IDLE];
    state.step(&fire0);
    assert_eq!(state.bullets.len(), 4);
    assert!(state.bullets.iter().all(|b| b.owner == 0 && b.age == 1));
    assert_eq!(state.ships[0].ready, BulletReady(false));
    // Holding fire does not fire again.
    state.step(&fire0);
    assert_eq!(state.bullets.len(), 4);
    // Releasing reloads; pressing again fires again.
    state.step(&vec![IDLE, IDLE]);
    assert_eq!(state.ships[0].ready, BulletReady(true));
    state.step(&fire0);
    assert_eq!(state.bullets.len(), 8);
}

#[test]
fn bullets_expire_after_their_lifetime() {
    let mut state = SimState::new();
    state.ships.clear();
    state.bullets.push(Bullet {
        owner: 0,
        transform: Transform { translation: Vec3i::new(0, 0, 0), rotation: FaceDir(2) },
        velocity: Velocity(Vec3i::new(0, 256 * 40, 0)),
        age: BULLET_TTL - 2,
    });
    state.move_bullet();
    assert_eq!(state.bullets.len(), 1);
    assert_eq!(state.bullets[0].transform.translation, Vec3i::new(0, 10240, 0));
    assert_eq!(state.bullets[0].age, BULLET_TTL - 1);
    state.move_bullet();
    assert!(state.bullets.is_empty());
}

#[test]
fn volley_from_player_zero_eliminates_player_one() {
    let mut state = SimState::new();
    let frames = run_until_round_end(&mut state, vec![[INPUT_FIRE, 0, 0], IDLE], 400);
    assert!(frames > 1);
    assert_eq!(state.round, RollbackState::RoundEnd);
    assert_eq!(state.scores, Scores(1, 0));
    assert_eq!(state.ships.len(), 1);
    assert_eq!(state.ships[0].player.handle, 0);
    // Every bullet of the volley reached the ship together and was spent.
    assert!(state.bullets.is_empty());
}

#[test]
fn round_end_timer_respawns_after_fixed_duration() {
    let mut state = SimState::new();
    run_until_round_end(&mut state, vec![[INPUT_FIRE, 0, 0], IDLE], 400);
    assert_eq!(state.round, RollbackState::RoundEnd);
    for _ in 0..ROUND_END_FRAMES - 1 {
        state.step(&vec![[INPUT_FIRE, 0, 0], [INPUT_FIRE, 0, 0]]);
        assert_eq!(state.round, RollbackState::RoundEnd);
        assert_eq!(state.scores, Scores(1, 0));
        assert_eq!(state.ships.len(), 1);
    }
    state.step(&vec![IDLE, IDLE]);
    assert_eq!(state.round, RollbackState::InRound);
    let mut fresh = SimState::new();
    fresh.scores = Scores(1, 0);
    assert_eq!(state, fresh);
}

#[test]
fn direct_hit_is_scored_once_for_the_opponent() {
    let mut state = SimState::new();
    let target = state.ships[0];
    state.bullets.push(Bullet {
        owner: 1,
        transform: target.transform,
        velocity: Velocity(Vec3i::new(256 * 40, 0, 0)),
        age: 0,
    });
    state.bullets.push(Bullet {
        owner: 1,
        transform: target.transform,
        velocity: Velocity(Vec3i::new(256 * 40, 0, 0)),
        age: 0,
    });
    state.kill_players();
    assert_eq!(state.scores, Scores(0, 1));
    assert_eq!(state.round, RollbackState::RoundEnd);
    assert_eq!(state.ships.len(), 1);
    assert_eq!(state.ships[0].player.handle, 1);
    assert!(state.bullets.is_empty());
}

#[test]
fn move_dir_points_along_heading() {
    assert_eq!(MoveDir::of(FaceDir(0)), MoveDir(Vec3i::new(256, 0, 0)));
    assert_eq!(MoveDir::of(FaceDir(3)), MoveDir(Vec3i::new(-181, 181, 0)));
    assert_eq!(MoveDir::of(FaceDir(6)), MoveDir(Vec3i::new(0, -256, 0)));
}

#[test]
fn component_checksums() {
    assert_eq!(checksum_face_dir(&FaceDir(5)), 5);
    let v1 = checksum_velocity(&Velocity(Vec3i::new(1, 2, 3)));
    let v2 = checksum_velocity(&Velocity(Vec3i::new(1, 2, 3)));
    let v3 = checksum_velocity(&Velocity(Vec3i::new(1, 2, 4)));
    assert_eq!(v1, v2);
    assert_ne!(v1, v3);
    assert_eq!(checksum_acceleration(&Acceleration(Vec3i::new(1, 2, 3))), v1);
    let t = Transform { translation: Vec3i::new(1, 2, 3), rotation: FaceDir(0) };
    let u = Transform { translation: Vec3i::new(1, 2, 3), rotation: FaceDir(1) };
    assert_ne!(checksum_transform(&t), checksum_transform(&u));
}

#[test]
fn state_checksum_tracks_every_field() {
    let a = SimState::new();
    let b = SimState::new();
    assert_eq!(a.checksum(), b.checksum());
    let mut c = SimState::new();
    c.ships[1].speed = 3;
    assert_ne!(a.checksum(), c.checksum());
    let mut d = SimState::new();
    d.round_end_timer = 1;
    assert_ne!(a.checksum(), d.checksum());
    let words = a.encode();
    assert_eq!(words.len(), 1 + 2 * 13 + 1 + 4);
    assert_eq!(words[0], 2);
}

#[test]
fn duplicate_is_field_for_field() {
    let mut s = SimState::new();
    s.step(&vec![[INPUT_FIRE, 0, 0], [INPUT_FIRE, 0, 0]]);
    let copy = s.duplicate();
    assert_eq!(copy, s);
    let ship: Ship = copy.ships[0];
    assert_eq!(ship, s.ships[0]);
}
