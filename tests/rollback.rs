use rollback_sim::game::{RollbackState, SimState};
use rollback_sim::input::{INPUT_DOWN, INPUT_FIRE, INPUT_LEFT, INPUT_UP};
use rollback_sim::rollback::{ChecksumVerdict, GameState, Scheduler, SchedulerError};
use rollback_sim::session::{handle_ggrs_event, handle_ggrs_events, SessionEvent, Severity};

fn in_game(window: usize) -> Scheduler {
    let mut s = Scheduler::new(window, 2).unwrap();
    s.assets_ready();
    assert!(s.players_joined(2));
    s
}

fn script(n: usize) -> Vec<Vec<[u8; 3]>> {
    let mut out = Vec::new();
    for i in 0..n {
        let a = if i % 3 == 0 { INPUT_FIRE | INPUT_LEFT } else { INPUT_UP };
        let b = if i % 4 == 1 { INPUT_FIRE | INPUT_DOWN } else { 0 };
        out.push(vec![[a, 0, 0], [b, (i as i8) as u8, 0]]);
    }
    out
}

#[test]
fn lifecycle_moves_forward_only() {
    let mut s = Scheduler::new(4, 2).unwrap();
    assert_eq!(s.phase(), GameState::AssetLoading);
    assert!(!s.players_joined(2));
    assert_eq!(s.advance(&vec![[0, 0, 0], [0, 0, 0]]), Err(SchedulerError::NotInGame));
    s.assets_ready();
    assert_eq!(s.phase(), GameState::Matchmaking);
    assert!(!s.players_joined(1));
    assert_eq!(s.phase(), GameState::Matchmaking);
    assert!(s.players_joined(2));
    assert_eq!(s.phase(), GameState::InGame);
    s.assets_ready();
    assert_eq!(s.phase(), GameState::InGame);
    assert!(!s.players_joined(2));
    assert_eq!(s.frame(), 0);
}

#[test]
fn zero_window_is_refused() {
    assert!(Scheduler::new(0, 2).is_none());
}

#[test]
fn rollback_replay_matches_forward_run() {
    let inputs = script(6);
    let mut s = in_game(8);
    for frame in &inputs {
        s.advance(frame).unwrap();
    }
    let state = s.state().clone();
    let checksum = s.current_checksum();
    let checks: Vec<Option<u64>> = (0..6).map(|f| s.local_checksum(f)).collect();
    assert_eq!(s.rollback_to(0, &inputs), Ok(()));
    assert_eq!(s.frame(), 6);
    assert_eq!(*s.state(), state);
    assert_eq!(s.current_checksum(), checksum);
    let again: Vec<Option<u64>> = (0..6).map(|f| s.local_checksum(f)).collect();
    assert_eq!(again, checks);
}

#[test]
fn rollback_with_corrected_inputs_resimulates() {
    let inputs = script(5);
    let mut s = in_game(8);
    for frame in &inputs {
        s.advance(frame).unwrap();
    }
    let mut corrected = inputs[2..].to_vec();
    corrected[0] = vec![[INPUT_DOWN, 0, 0], [INPUT_FIRE, 0, 0]];
    assert_eq!(s.rollback_to(2, &corrected), Ok(()));

    let mut reference = SimState::new();
    for frame in &inputs[..2] {
        reference.step(frame);
    }
    for frame in &corrected {
        reference.step(frame);
    }
    assert_eq!(*s.state(), reference);
    assert_eq!(s.frame(), 5);
}

#[test]
fn rollback_beyond_window_is_rejected() {
    let inputs = script(6);
    let mut s = in_game(3);
    for frame in &inputs {
        s.advance(frame).unwrap();
    }
    assert!(!s.snapshot_available(2));
    assert!(s.snapshot_available(3));
    assert!(s.snapshot_available(5));
    assert!(!s.snapshot_available(6));
    let state = s.state().clone();
    assert_eq!(s.rollback_to(2, &inputs[2..].to_vec()), Err(SchedulerError::SnapshotMissing));
    assert_eq!(s.load_snapshot(1), Err(SchedulerError::SnapshotMissing));
    assert_eq!(*s.state(), state);
    assert_eq!(s.frame(), 6);
    assert_eq!(s.local_checksum(2), None);
}

#[test]
fn rollback_needs_inputs_for_every_frame() {
    let inputs = script(4);
    let mut s = in_game(8);
    for frame in &inputs {
        s.advance(frame).unwrap();
    }
    assert_eq!(s.rollback_to(1, &inputs[1..3].to_vec()), Err(SchedulerError::InputsMismatch));
    assert_eq!(s.frame(), 4);
}

#[test]
fn snapshot_round_trip_restores_state() {
    let inputs = script(3);
    let mut s = in_game(4);
    s.advance(&inputs[0]).unwrap();
    let at_one = s.state().clone();
    let checksum_one = s.current_checksum();
    s.advance(&inputs[1]).unwrap();
    s.advance(&inputs[2]).unwrap();
    assert_ne!(*s.state(), at_one);
    assert_eq!(s.local_checksum(1), Some(checksum_one));
    assert_eq!(s.load_snapshot(1), Ok(()));
    assert_eq!(*s.state(), at_one);
    assert_eq!(s.frame(), 1);
    assert!(!s.snapshot_available(1));
    assert!(s.snapshot_available(0));
}

#[test]
fn remote_checksums_are_compared() {
    let inputs = script(2);
    let mut s = in_game(4);
    s.advance(&inputs[0]).unwrap();
    let local = s.local_checksum(0).unwrap();
    assert_eq!(s.check_remote_checksum(0, local), ChecksumVerdict::Match);
    assert_eq!(
        s.check_remote_checksum(0, local ^ 1),
        ChecksumVerdict::Mismatch { local }
    );
    assert_eq!(s.check_remote_checksum(7, local), ChecksumVerdict::Unknown);
}

#[test]
fn session_events_are_sorted_by_severity() {
    assert_eq!(handle_ggrs_event(&SessionEvent::Disconnected), Severity::Warning);
    assert_eq!(handle_ggrs_event(&SessionEvent::Synchronized), Severity::Info);
    let events = vec![
        SessionEvent::NetworkInterrupted,
        SessionEvent::DesyncDetected { frame: 3, local_checksum: 1, remote_checksum: 2 },
        SessionEvent::WaitRecommendation { skip_frames: 2 },
    ];
    assert_eq!(
        handle_ggrs_events(&events),
        vec![Severity::Warning, Severity::Error, Severity::Info]
    );
}

#[test]
fn rounds_progress_under_the_scheduler() {
    let mut s = in_game(2);
    s.advance(&vec![[INPUT_FIRE, 0, 0], [0, 0, 0]]).unwrap();
    while s.state().round == RollbackState::InRound && s.frame() < 400 {
        s.advance(&vec![[0, 0, 0], [0, 0, 0]]).unwrap();
    }
    assert_eq!(s.state().round, RollbackState::RoundEnd);
    assert_eq!(s.state().scores.0, 1);
}

#[test]
fn confirmed_frames_drop_their_snapshots() {
    let inputs = script(5);
    let mut s = in_game(8);
    for frame in &inputs {
        s.advance(frame).unwrap();
    }
    s.confirm_frame(3);
    assert!(!s.snapshot_available(2));
    assert!(s.snapshot_available(3));
    assert!(s.snapshot_available(4));
    assert_eq!(s.rollback_to(1, &inputs[1..].to_vec()), Err(SchedulerError::SnapshotMissing));
    assert_eq!(s.rollback_to(3, &inputs[3..].to_vec()), Ok(()));
    s.confirm_frame(1);
    assert!(s.snapshot_available(3));
    s.confirm_frame(9);
    assert!(!s.snapshot_available(4));
    assert_eq!(s.frame(), 5);
    assert_eq!(s.input_delay(), 2);
}
