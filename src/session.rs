use vstd::prelude::*;

verus! {

/// A notification of the network session, reduced to what the host acts on.
#[derive(Clone, Copy, Debug, PartialEq, Eq, Structural)]
pub enum SessionEvent {
    Synchronizing,
    Synchronized,
    Disconnected,
    NetworkInterrupted,
    NetworkResumed,
    WaitRecommendation { skip_frames: u32 },
    DesyncDetected { frame: i32, local_checksum: u128, remote_checksum: u128 },
}

/// How the host reports an event. None of them stops the simulation.
#[derive(Clone, Copy, Debug, PartialEq, Eq, Structural)]
pub enum Severity {
    Info,
    /// A peer dropped or stalled.
    Warning,
    /// The peers' states diverged.
    Error,
}

pub open spec fn severity_spec(e: SessionEvent) -> Severity {
    match e {
        SessionEvent::Disconnected | SessionEvent::NetworkInterrupted => Severity::Warning,
        SessionEvent::DesyncDetected { .. } => Severity::Error,
        _ => Severity::Info,
    }
}

/// Sorts a session event: a disconnect or an interruption is a warning, a
/// desync an error, anything else information.
pub fn handle_ggrs_event(e: &SessionEvent) -> (r: Severity)
    ensures
        r == severity_spec(*e),
{
    match e {
        SessionEvent::Disconnected | SessionEvent::NetworkInterrupted => Severity::Warning,
        SessionEvent::DesyncDetected { .. } => Severity::Error,
        _ => Severity::Info,
    }
}

/// Sorts a frame's queue of events, in order.
pub fn handle_ggrs_events(events: &Vec<SessionEvent>) -> (r: Vec<Severity>)
    ensures
        r@ == events@.map_values(|e: SessionEvent| severity_spec(e)),
{
    let mut out: Vec<Severity> = Vec::new();
    let mut i: usize = 0;
    while i < events.len()
        invariant
            0 <= i <= events@.len(),
            out@ == events@.subrange(0, i as int).map_values(|e: SessionEvent| severity_spec(e)),
        decreases events@.len() - i,
    {
        out.push(handle_ggrs_event(&events[i]));
        i = i + 1;
        assert(out@ =~= events@.subrange(0, i as int).map_values(|e: SessionEvent| severity_spec(e)));
    }
    assert(events@.subrange(0, events@.len() as int) =~= events@);
    out
}

} // verus!
