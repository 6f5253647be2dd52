use vstd::prelude::*;
use crate::game::{SimState, SimModel, Scores, respawned, step_spec, inputs_wf, NUM_PLAYERS};
use crate::snapshot::state_checksum;
use crate::input::PlayerInput;

verus! {

/// The session lifecycle. It only moves forward.
#[derive(Clone, Copy, Debug, PartialEq, Eq, Structural)]
pub enum GameState {
    AssetLoading,
    Matchmaking,
    InGame,
}

/// Why the scheduler refused a request. A missing snapshot is a defect of the
/// caller (its rollback window is undersized) and must end the session; the
/// other errors leave everything as it was.
#[derive(Clone, Copy, Debug, PartialEq, Eq, Structural)]
pub enum SchedulerError {
    /// The session is not in game yet; try again later.
    NotInGame,
    /// No snapshot is retained for the requested frame.
    SnapshotMissing,
    /// The corrected inputs do not cover exactly the frames to replay.
    InputsMismatch,
    /// The frame counter would overflow.
    FrameLimit,
}

/// What comparing a peer's checksum with the local one found.
#[derive(Clone, Copy, Debug, PartialEq, Eq, Structural)]
pub enum ChecksumVerdict {
    Match,
    /// The peers diverged: reported, never corrected.
    Mismatch { local: u64 },
    /// The frame's snapshot is no longer, or not yet, retained.
    Unknown,
}

/// The state at the start of a frame, with its checksum.
pub struct Snapshot {
    pub frame: i32,
    pub state: SimState,
    pub checksum: u64,
}

/// The mathematical value of a `Snapshot`.
pub struct SnapModel {
    pub frame: int,
    pub state: SimModel,
    pub checksum: u64,
}

impl View for Snapshot {
    type V = SnapModel;

    open spec fn view(&self) -> SnapModel {
        SnapModel { frame: self.frame as int, state: self.state@, checksum: self.checksum }
    }
}

/// Runs frames, keeps the snapshots a rollback needs, and replays.
///
/// Only the scheduler writes the simulation state, so replays see exactly
/// what the first run saw; the host reads it between frames.
pub struct Scheduler {
    phase: GameState,
    /// The next frame to simulate.
    frame: i32,
    state: SimState,
    /// Snapshots of consecutive frames, the newest last.
    snapshots: Vec<Snapshot>,
    /// How many snapshots are retained: the deepest rollback accepted.
    max_rollback: usize,
    /// Frames of lookahead the session buffers local input by.
    input_delay: usize,
}

/// The mathematical value of a `Scheduler`.
pub struct SchedModel {
    pub phase: GameState,
    pub frame: int,
    pub state: SimModel,
    pub snaps: Seq<SnapModel>,
    pub window: nat,
    pub input_delay: nat,
}

impl View for Scheduler {
    type V = SchedModel;

    closed spec fn view(&self) -> SchedModel {
        SchedModel {
            phase: self.phase,
            frame: self.frame as int,
            state: self.state@,
            snaps: self.snapshots@.map_values(|s: Snapshot| s@),
            window: self.max_rollback as nat,
            input_delay: self.input_delay as nat,
        }
    }
}

pub open spec fn snap_of(m: SchedModel) -> SnapModel {
    SnapModel { frame: m.frame, state: m.state, checksum: state_checksum(m.state) }
}

/// The last `w` elements of `s`, or all of them when there are fewer.
pub open spec fn keep_last<T>(s: Seq<T>, w: nat) -> Seq<T> {
    if s.len() > w {
        s.subrange(s.len() - w, s.len() as int)
    } else {
        s
    }
}

/// First frame with a retained snapshot.
pub open spec fn oldest_frame(m: SchedModel) -> int {
    m.frame - m.snaps.len()
}

pub open spec fn has_snapshot(m: SchedModel, f: int) -> bool {
    oldest_frame(m) <= f < m.frame
}

impl SchedModel {
    pub open spec fn wf(self) -> bool {
        &&& self.window >= 1
        &&& self.snaps.len() <= self.window
        &&& 0 <= oldest_frame(self)
        &&& self.frame <= i32::MAX
        &&& self.state.wf()
        &&& forall|i: int|
            0 <= i < self.snaps.len() ==> {
                &&& (#[trigger] self.snaps[i]).frame == oldest_frame(self) + i
                &&& self.snaps[i].state.wf()
                &&& self.snaps[i].checksum == state_checksum(self.snaps[i].state)
            }
    }
}

/// The snapshots left once every frame before `confirmed` is final.
pub open spec fn confirm_spec(m: SchedModel, confirmed: int) -> Seq<SnapModel> {
    if confirmed <= oldest_frame(m) {
        m.snaps
    } else if confirmed >= m.frame {
        Seq::empty()
    } else {
        m.snaps.subrange(confirmed - oldest_frame(m), m.snaps.len() as int)
    }
}

/// One frame forward: snapshot the state under the current frame, step it,
/// and drop the snapshot that falls out of the window.
pub open spec fn advance_spec(m: SchedModel, inputs: Seq<PlayerInput>) -> SchedModel {
    SchedModel {
        frame: m.frame + 1,
        state: step_spec(m.state, inputs),
        snaps: keep_last(m.snaps.push(snap_of(m)), m.window),
        ..m
    }
}

/// Frames forward, one per element of `inputs`.
pub open spec fn advance_all(m: SchedModel, inputs: Seq<Seq<PlayerInput>>) -> SchedModel
    decreases inputs.len(),
{
    if inputs.len() == 0 {
        m
    } else {
        advance_spec(advance_all(m, inputs.drop_last()), inputs.last())
    }
}

/// Back to the start of frame `f`: its snapshot becomes the state, and it and
/// every later snapshot are dropped (they will be taken again).
pub open spec fn restore_spec(m: SchedModel, f: int) -> SchedModel {
    let idx = f - oldest_frame(m);
    SchedModel { frame: f, state: m.snaps[idx].state, snaps: m.snaps.subrange(0, idx), ..m }
}

pub open spec fn rollback_spec(m: SchedModel, f: int, inputs: Seq<Seq<PlayerInput>>) -> Result<
    SchedModel,
    SchedulerError,
> {
    if m.phase != GameState::InGame {
        Err(SchedulerError::NotInGame)
    } else if !has_snapshot(m, f) {
        Err(SchedulerError::SnapshotMissing)
    } else if inputs.len() != m.frame - f {
        Err(SchedulerError::InputsMismatch)
    } else {
        Ok(advance_all(restore_spec(m, f), inputs))
    }
}

pub open spec fn all_inputs_wf(inputs: Seq<Seq<PlayerInput>>) -> bool {
    forall|i: int| 0 <= i < inputs.len() ==> inputs_wf(#[trigger] inputs[i])
}


pub open spec fn inputs_view(inputs: Seq<Vec<PlayerInput>>) -> Seq<Seq<PlayerInput>> {
    inputs.map_values(|v: Vec<PlayerInput>| v@)
}

proof fn lemma_advance_all_prefix(m: SchedModel, inputs: Seq<Seq<PlayerInput>>, i: int)
    requires
        0 <= i < inputs.len(),
    ensures
        advance_all(m, inputs.subrange(0, i + 1)) == advance_spec(
            advance_all(m, inputs.subrange(0, i)),
            inputs[i],
        ),
{
    assert(inputs.subrange(0, i + 1).drop_last() =~= inputs.subrange(0, i));
}

proof fn lemma_advance_all_frame(m: SchedModel, inputs: Seq<Seq<PlayerInput>>)
    ensures
        advance_all(m, inputs).frame == m.frame + inputs.len(),
        advance_all(m, inputs).phase == m.phase,
        advance_all(m, inputs).window == m.window,
        advance_all(m, inputs).input_delay == m.input_delay,
    decreases inputs.len(),
{
    if inputs.len() > 0 {
        lemma_advance_all_frame(m, inputs.drop_last());
    }
}

impl Scheduler {
    /// A scheduler retaining `max_rollback` snapshots, loading assets, at
    /// frame 0 of a fresh game. None when `max_rollback` is 0: a rollback
    /// could never be served.
    pub fn new(max_rollback: usize, input_delay: usize) -> (r: Option<Scheduler>)
        ensures
            r is None <==> max_rollback == 0,
            r matches Some(s) ==> {
                &&& s@.wf()
                &&& s@.phase == GameState::AssetLoading
                &&& s@.frame == 0
                &&& s@.state == respawned(Scores(0, 0))
                &&& s@.snaps.len() == 0
                &&& s@.window == max_rollback
                &&& s@.input_delay == input_delay
            },
    {
        if max_rollback == 0 {
            return None;
        }
        let s = Scheduler {
            phase: GameState::AssetLoading,
            frame: 0,
            state: SimState::new(),
            snapshots: Vec::new(),
            max_rollback,
            input_delay,
        };
        assert(s@.snaps =~= Seq::<SnapModel>::empty());
        Some(s)
    }

    /// The session lifecycle phase.
    pub fn phase(&self) -> (r: GameState)
        ensures
            r == self@.phase,
    {
        self.phase
    }

    /// The next frame to simulate.
    pub fn frame(&self) -> (r: i32)
        ensures
            r == self@.frame,
    {
        self.frame
    }

    /// The settled state after the last frame run.
    pub fn state(&self) -> (r: &SimState)
        ensures
            r@ == self@.state,
    {
        &self.state
    }

    /// The configured input delay, in frames.
    pub fn input_delay(&self) -> (r: usize)
        ensures
            r == self@.input_delay,
    {
        self.input_delay
    }

    /// Drops the snapshots of frames before `confirmed`: every input up to
    /// it is final, so no rollback will go further back.
    pub fn confirm_frame(&mut self, confirmed: i32)
        requires
            old(self)@.wf(),
        ensures
            final(self)@.wf(),
            final(self)@ == (SchedModel { snaps: confirm_spec(old(self)@, confirmed as int), ..old(self)@ }),
    {
        let ghost m = self@;
        let oldest: i64 = self.frame as i64 - self.snapshots.len() as i64;
        if (confirmed as i64) <= oldest {
            assert(m.snaps.subrange(0, m.snaps.len() as int) =~= m.snaps);
            return;
        }
        let drop: usize = if (confirmed as i64) >= self.frame as i64 {
            self.snapshots.len()
        } else {
            (confirmed as i64 - oldest) as usize
        };
        let mut kept: Vec<Snapshot> = Vec::new();
        let mut i: usize = drop;
        while i < self.snapshots.len()
            invariant
                drop <= i <= self.snapshots@.len(),
                self@ == m,
                kept@.map_values(|s: Snapshot| s@) == m.snaps.subrange(drop as int, i as int),
            decreases self.snapshots@.len() - i,
        {
            let s = &self.snapshots[i];
            assert(m.snaps[i as int] == self.snapshots@[i as int]@);
            let copy = Snapshot { frame: s.frame, state: s.state.duplicate(), checksum: s.checksum };
            assert(copy@ == m.snaps[i as int]);
            let ghost before = kept@;
            kept.push(copy);
            assert(kept@.map_values(|s: Snapshot| s@) =~= before.map_values(|s: Snapshot| s@).push(copy@));
            i = i + 1;
            assert(kept@.map_values(|s: Snapshot| s@) =~= m.snaps.subrange(drop as int, i as int));
        }
        self.snapshots = kept;
        assert(self@.snaps =~= confirm_spec(m, confirmed as int));
    }

    /// Assets are loaded: leave the loading phase for matchmaking. In any
    /// other phase nothing changes.
    pub fn assets_ready(&mut self)
        requires
            old(self)@.wf(),
        ensures
            final(self)@ == (SchedModel {
                phase: if old(self)@.phase == GameState::AssetLoading {
                    GameState::Matchmaking
                } else {
                    old(self)@.phase
                },
                ..old(self)@
            }),
            final(self)@.wf(),
    {
        if let GameState::AssetLoading = self.phase {
            self.phase = GameState::Matchmaking;
        }
    }

    /// `connected` peers are present: once every player has joined during
    /// matchmaking, the game starts. Until then the caller polls again.
    pub fn players_joined(&mut self, connected: usize) -> (r: bool)
        requires
            old(self)@.wf(),
        ensures
            r == (old(self)@.phase == GameState::Matchmaking && connected >= NUM_PLAYERS),
            final(self)@ == (SchedModel {
                phase: if r {
                    GameState::InGame
                } else {
                    old(self)@.phase
                },
                ..old(self)@
            }),
            final(self)@.wf(),
    {
        if let GameState::Matchmaking = self.phase {
            if connected >= NUM_PLAYERS {
                self.phase = GameState::InGame;
                return true;
            }
        }
        false
    }

    /// Whether a rollback to frame `f` can be served.
    pub fn snapshot_available(&self, f: i32) -> (r: bool)
        requires
            self@.wf(),
        ensures
            r == has_snapshot(self@, f as int),
    {
        let oldest: i64 = self.frame as i64 - self.snapshots.len() as i64;
        oldest <= f as i64 && (f as i64) < self.frame as i64
    }

    /// The checksum of the state at the start of frame `f`, while its
    /// snapshot is retained.
    pub fn local_checksum(&self, f: i32) -> (r: Option<u64>)
        requires
            self@.wf(),
        ensures
            has_snapshot(self@, f as int) ==> r == Some(
                self@.snaps[f - oldest_frame(self@)].checksum,
            ),
            !has_snapshot(self@, f as int) ==> r is None,
    {
        if !self.snapshot_available(f) {
            return None;
        }
        let idx = (f as i64 - (self.frame as i64 - self.snapshots.len() as i64)) as usize;
        Some(self.snapshots[idx].checksum)
    }

    /// Compares a peer's checksum for frame `f` with the local one.
    pub fn check_remote_checksum(&self, f: i32, remote: u64) -> (r: ChecksumVerdict)
        requires
            self@.wf(),
        ensures
            !has_snapshot(self@, f as int) ==> r == ChecksumVerdict::Unknown,
            has_snapshot(self@, f as int) ==> {
                let local = self@.snaps[f - oldest_frame(self@)].checksum;
                r == if local == remote {
                    ChecksumVerdict::Match
                } else {
                    ChecksumVerdict::Mismatch { local }
                }
            },
    {
        match self.local_checksum(f) {
            Some(local) => if local == remote {
                ChecksumVerdict::Match
            } else {
                ChecksumVerdict::Mismatch { local }
            },
            None => ChecksumVerdict::Unknown,
        }
    }

    /// The checksum of the current state.
    pub fn current_checksum(&self) -> (r: u64)
        requires
            self@.wf(),
        ensures
            r == state_checksum(self@.state),
    {
        self.state.checksum()
    }

    /// Runs the current frame on `inputs` (one per player handle), after
    /// taking its snapshot. Refused before the game starts and when the frame
    /// counter is exhausted.
    pub fn advance(&mut self, inputs: &Vec<PlayerInput>) -> (r: Result<(), SchedulerError>)
        requires
            old(self)@.wf(),
            inputs_wf(inputs@),
        ensures
            final(self)@.wf(),
            old(self)@.phase != GameState::InGame ==> r == Err::<(), SchedulerError>(SchedulerError::NotInGame),
            old(self)@.phase == GameState::InGame && old(self)@.frame == i32::MAX ==> r == Err::<(), SchedulerError>(SchedulerError::FrameLimit),
            old(self)@.phase == GameState::InGame && old(self)@.frame < i32::MAX ==> r is Ok,
            r is Ok ==> final(self)@ == advance_spec(old(self)@, inputs@),
            r is Err ==> final(self)@ == old(self)@,
    {
        match self.phase {
            GameState::InGame => {},
            _ => {
                return Err(SchedulerError::NotInGame);
            },
        }
        if self.frame == i32::MAX {
            return Err(SchedulerError::FrameLimit);
        }
        let ghost m = self@;
        let snap = Snapshot { frame: self.frame, state: self.state.duplicate(), checksum: self.state.checksum() };
        assert(snap@ == snap_of(m));
        self.snapshots.push(snap);
        assert(self.snapshots@.map_values(|s: Snapshot| s@) =~= m.snaps.push(snap_of(m)));
        if self.snapshots.len() > self.max_rollback {
            let ghost pushed = self.snapshots@;
            self.snapshots.remove(0);
            assert(self.snapshots@.map_values(|s: Snapshot| s@) =~= keep_last(m.snaps.push(snap_of(m)), m.window));
        }
        self.state.step(inputs);
        self.frame = self.frame + 1;
        assert(self@.snaps =~= keep_last(m.snaps.push(snap_of(m)), m.window));
        Ok(())
    }

    /// Restores the state at the start of frame `f` from its snapshot; that
    /// snapshot and every later one are dropped, and `f` is the next frame to
    /// run. A frame without a retained snapshot is refused: the caller's
    /// window was undersized, which is fatal for the session.
    pub fn load_snapshot(&mut self, f: i32) -> (r: Result<(), SchedulerError>)
        requires
            old(self)@.wf(),
        ensures
            final(self)@.wf(),
            old(self)@.phase != GameState::InGame ==> r == Err::<(), SchedulerError>(SchedulerError::NotInGame),
            old(self)@.phase == GameState::InGame && !has_snapshot(old(self)@, f as int) ==> r == Err::<(), SchedulerError>(SchedulerError::SnapshotMissing),
            old(self)@.phase == GameState::InGame && has_snapshot(old(self)@, f as int) ==> r is Ok,
            r is Ok ==> final(self)@ == restore_spec(old(self)@, f as int),
            r is Err ==> final(self)@ == old(self)@,
    {
        match self.phase {
            GameState::InGame => {},
            _ => {
                return Err(SchedulerError::NotInGame);
            },
        }
        if !self.snapshot_available(f) {
            return Err(SchedulerError::SnapshotMissing);
        }
        let ghost m = self@;
        let idx = (f as i64 - (self.frame as i64 - self.snapshots.len() as i64)) as usize;
        assert(m.snaps[idx as int] == self.snapshots@[idx as int]@);
        self.state = self.snapshots[idx].state.duplicate();
        self.snapshots.truncate(idx);
        self.frame = f;
        assert(self@.snaps =~= m.snaps.subrange(0, idx as int));
        Ok(())
    }

    /// Rolls back to the start of frame `f` and runs again every frame up to
    /// the present on the corrected inputs, one element per frame.
    pub fn rollback_to(&mut self, f: i32, inputs: &Vec<Vec<PlayerInput>>) -> (r: Result<(), SchedulerError>)
        requires
            old(self)@.wf(),
            all_inputs_wf(inputs_view(inputs@)),
        ensures
            final(self)@.wf(),
            match rollback_spec(old(self)@, f as int, inputs_view(inputs@)) {
                Ok(m) => r is Ok && final(self)@ == m,
                Err(e) => r == Err::<(), SchedulerError>(e) && final(self)@ == old(self)@,
            },
    {
        let ghost ins = inputs_view(inputs@);
        match self.phase {
            GameState::InGame => {},
            _ => {
                return Err(SchedulerError::NotInGame);
            },
        }
        if !self.snapshot_available(f) {
            return Err(SchedulerError::SnapshotMissing);
        }
        let gap = (self.frame as i64 - f as i64) as usize;
        assert(ins.len() == inputs@.len());
        if inputs.len() != gap {
            return Err(SchedulerError::InputsMismatch);
        }
        let ghost restored = restore_spec(self@, f as int);
        let loaded = self.load_snapshot(f);
        assert(loaded is Ok);
        let mut i: usize = 0;
        while i < inputs.len()
            invariant
                0 <= i <= inputs@.len(),
                ins == inputs_view(inputs@),
                all_inputs_wf(ins),
                restored.frame + ins.len() <= i32::MAX,
                restored.phase == GameState::InGame,
                self@.wf(),
                self@ == advance_all(restored, ins.subrange(0, i as int)),
            decreases inputs@.len() - i,
        {
            proof {
                lemma_advance_all_frame(restored, ins.subrange(0, i as int));
                lemma_advance_all_prefix(restored, ins, i as int);
                assert(inputs_wf(ins[i as int]));
            }
            let step = self.advance(&inputs[i]);
            assert(step is Ok);
            i = i + 1;
        }
        assert(ins.subrange(0, ins.len() as int) =~= ins);
        Ok(())
    }
}


// ---------------------------------------------------------------- replay

/// The snapshots that advancing `m` over `inputs` takes, oldest first.
pub open spec fn new_snaps(m: SchedModel, inputs: Seq<Seq<PlayerInput>>) -> Seq<SnapModel>
    decreases inputs.len(),
{
    if inputs.len() == 0 {
        Seq::empty()
    } else {
        new_snaps(m, inputs.drop_last()).push(snap_of(advance_all(m, inputs.drop_last())))
    }
}

proof fn lemma_keep_last_push<T>(a: Seq<T>, x: T, w: nat)
    requires
        w >= 1,
    ensures
        keep_last(keep_last(a, w).push(x), w) == keep_last(a.push(x), w),
{
    assert(keep_last(keep_last(a, w).push(x), w) =~= keep_last(a.push(x), w));
}

proof fn lemma_new_snaps_len(m: SchedModel, inputs: Seq<Seq<PlayerInput>>)
    ensures
        new_snaps(m, inputs).len() == inputs.len(),
    decreases inputs.len(),
{
    if inputs.len() > 0 {
        lemma_new_snaps_len(m, inputs.drop_last());
    }
}

proof fn lemma_advance_all_snaps(m: SchedModel, inputs: Seq<Seq<PlayerInput>>)
    requires
        m.window >= 1,
        m.snaps.len() <= m.window,
    ensures
        advance_all(m, inputs).snaps == keep_last(m.snaps + new_snaps(m, inputs), m.window),
        new_snaps(m, inputs).len() == inputs.len(),
    decreases inputs.len(),
{
    lemma_new_snaps_len(m, inputs);
    if inputs.len() == 0 {
        assert(m.snaps + new_snaps(m, inputs) =~= m.snaps);
    } else {
        let d = inputs.drop_last();
        lemma_advance_all_snaps(m, d);
        lemma_advance_all_frame(m, d);
        let mm = advance_all(m, d);
        lemma_keep_last_push(m.snaps + new_snaps(m, d), snap_of(mm), m.window);
        assert((m.snaps + new_snaps(m, d)).push(snap_of(mm)) =~= m.snaps + new_snaps(m, inputs));
    }
}

proof fn lemma_advance_all_same_start(m1: SchedModel, m2: SchedModel, inputs: Seq<Seq<PlayerInput>>)
    requires
        m1.frame == m2.frame,
        m1.state == m2.state,
    ensures
        advance_all(m1, inputs).frame == advance_all(m2, inputs).frame,
        advance_all(m1, inputs).state == advance_all(m2, inputs).state,
        new_snaps(m1, inputs) == new_snaps(m2, inputs),
    decreases inputs.len(),
{
    if inputs.len() > 0 {
        lemma_advance_all_same_start(m1, m2, inputs.drop_last());
    }
}

proof fn lemma_new_snaps_first(m: SchedModel, inputs: Seq<Seq<PlayerInput>>)
    requires
        inputs.len() >= 1,
    ensures
        new_snaps(m, inputs)[0] == snap_of(m),
    decreases inputs.len(),
{
    let d = inputs.drop_last();
    if d.len() == 0 {
        assert(new_snaps(m, d) =~= Seq::<SnapModel>::empty());
    } else {
        lemma_new_snaps_first(m, d);
        lemma_new_snaps_len(m, d);
    }
}

/// Replaying is indistinguishable from simulating the first time: after `k`
/// frames are advanced from a state, `k` within the retention window, a
/// rollback to the first of them with the same inputs gives back the very
/// same scheduler: state, frame, snapshots, and so every checksum.
#[verifier::rlimit(40)]
pub proof fn lemma_rollback_replay_matches(m: SchedModel, inputs: Seq<Seq<PlayerInput>>)
    requires
        m.wf(),
        m.phase == GameState::InGame,
        1 <= inputs.len() <= m.window,
    ensures
        rollback_spec(advance_all(m, inputs), m.frame, inputs) == Ok::<SchedModel, SchedulerError>(
            advance_all(m, inputs),
        ),
        state_checksum(advance_all(m, inputs).state) == state_checksum(
            advance_all(restore_spec(advance_all(m, inputs), m.frame), inputs).state,
        ),
{
    let mk = advance_all(m, inputs);
    let k = inputs.len() as int;
    let l = m.snaps.len() as int;
    let w = m.window as int;
    let n = new_snaps(m, inputs);
    let full = m.snaps + n;
    lemma_advance_all_frame(m, inputs);
    lemma_advance_all_snaps(m, inputs);
    lemma_new_snaps_first(m, inputs);
    let mn = if l + k > w { w } else { l + k };
    assert(mk.snaps =~= full.subrange(l + k - mn, l + k));
    assert(has_snapshot(mk, m.frame));
    let idx = m.frame - oldest_frame(mk);
    assert(idx == mn - k);
    assert(mk.snaps[idx] == full[l]);
    let restored = restore_spec(mk, m.frame);
    assert(restored.state == m.state);
    assert(restored.snaps =~= full.subrange(l + k - mn, l));
    lemma_advance_all_same_start(restored, m, inputs);
    lemma_advance_all_frame(restored, inputs);
    assert(restored.snaps.len() <= restored.window);
    lemma_advance_all_snaps(restored, inputs);
    assert(restored.snaps + n =~= full.subrange(l + k - mn, l + k));
    assert(keep_last(restored.snaps + n, m.window) =~= mk.snaps);
}


/// A snapshot gives back what it was taken of: after a frame is advanced,
/// its snapshot is retained, restoring it yields the state as it was before
/// the frame, field for field, and its checksum is that state's checksum.
pub proof fn lemma_snapshot_round_trip(m: SchedModel, inputs: Seq<PlayerInput>)
    requires
        m.wf(),
    ensures
        has_snapshot(advance_spec(m, inputs), m.frame),
        restore_spec(advance_spec(m, inputs), m.frame).state == m.state,
        restore_spec(advance_spec(m, inputs), m.frame).frame == m.frame,
        advance_spec(m, inputs).snaps[m.frame - oldest_frame(advance_spec(m, inputs))].checksum
            == state_checksum(m.state),
{
    let a = advance_spec(m, inputs);
    let pushed = m.snaps.push(snap_of(m));
    assert(a.snaps.len() >= 1);
    assert(a.snaps.last() == pushed.last());
    assert(m.frame - oldest_frame(a) == a.snaps.len() - 1);
}

} // verus!
