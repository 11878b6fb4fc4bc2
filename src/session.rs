use vstd::prelude::*;

verus! {

/// The phases of a capture session.
#[derive(Debug, Clone, Copy, PartialEq, Eq, Structural)]
pub enum Phase {
    /// The capture device is not open yet.
    Starting,
    /// Capturing while the monitored process runs.
    Running,
    /// The process has exited; trailing packets are still collected.
    Draining,
    Stopped,
}

/// What the capture loop reports to the session. Times are milliseconds on a
/// monotonic clock.
#[derive(Debug, Clone, Copy, PartialEq, Eq, Structural)]
pub enum SessionEvent {
    /// The capture handle was opened and its filter installed.
    CaptureOpened,
    /// Opening the capture, or reading from it, failed.
    CaptureFailed,
    /// A packet from a socket of the monitored process arrived.
    CorrelatedPacket(u64),
    /// The monitored process was seen to have exited.
    ProcessExited(u64),
    /// A poll ended without a correlated packet.
    Tick(u64),
}

/// A capture session tied to one monitored process.
#[derive(Debug, Clone, Copy, PartialEq, Eq, Structural)]
pub struct Session {
    pub phase: Phase,
    /// How long the session drains after the last activity once the process has exited.
    pub grace_ms: u64,
    /// The process has been seen to exit.
    pub exited: bool,
    /// When the process exited or, after that, when the latest correlated packet came.
    pub last_activity_ms: u64,
}

/// The time since the last activity has passed the grace period.
pub open spec fn grace_elapsed(s: Session, now: u64) -> bool {
    now > s.last_activity_ms + s.grace_ms
}

/// The session after one event.
pub open spec fn next_session(s: Session, e: SessionEvent) -> Session {
    match s.phase {
        Phase::Stopped => s,
        Phase::Starting => match e {
            SessionEvent::CaptureOpened => Session { phase: Phase::Running, ..s },
            SessionEvent::CaptureFailed => Session { phase: Phase::Stopped, ..s },
            _ => s,
        },
        Phase::Running => match e {
            SessionEvent::CaptureFailed => Session { phase: Phase::Stopped, ..s },
            SessionEvent::ProcessExited(now) => Session {
                phase: Phase::Draining,
                exited: true,
                last_activity_ms: now,
                ..s
            },
            _ => s,
        },
        Phase::Draining => match e {
            SessionEvent::CaptureFailed => Session { phase: Phase::Stopped, ..s },
            SessionEvent::CorrelatedPacket(now) => Session { last_activity_ms: now, ..s },
            SessionEvent::Tick(now) => if grace_elapsed(s, now) {
                Session { phase: Phase::Stopped, ..s }
            } else {
                s
            },
            _ => s,
        },
    }
}

impl Session {
    /// A session that has not opened its capture yet.
    pub fn new(grace_ms: u64) -> (r: Session)
        ensures
            r.phase == Phase::Starting,
            r.grace_ms == grace_ms,
            !r.exited,
            r.last_activity_ms == 0,
    {
        Session { phase: Phase::Starting, grace_ms, exited: false, last_activity_ms: 0 }
    }

    /// Applies one event; returns whether the capture loop goes on.
    pub fn step(&mut self, e: SessionEvent) -> (r: bool)
        ensures
            *final(self) == next_session(*old(self), e),
            r == (final(self).phase != Phase::Stopped),
    {
        match self.phase {
            Phase::Stopped => {},
            Phase::Starting => match e {
                SessionEvent::CaptureOpened => self.phase = Phase::Running,
                SessionEvent::CaptureFailed => self.phase = Phase::Stopped,
                _ => {},
            },
            Phase::Running => match e {
                SessionEvent::CaptureFailed => self.phase = Phase::Stopped,
                SessionEvent::ProcessExited(now) => {
                    self.phase = Phase::Draining;
                    self.exited = true;
                    self.last_activity_ms = now;
                },
                _ => {},
            },
            Phase::Draining => match e {
                SessionEvent::CaptureFailed => self.phase = Phase::Stopped,
                SessionEvent::CorrelatedPacket(now) => self.last_activity_ms = now,
                SessionEvent::Tick(now) => {
                    if now > self.last_activity_ms && now - self.last_activity_ms > self.grace_ms {
                        self.phase = Phase::Stopped;
                    }
                },
                _ => {},
            },
        }
        self.phase != Phase::Stopped
    }
}

/// The event that a captured packet makes: activity of the monitored process
/// where the packet came from one of its sockets, a plain tick otherwise.
pub fn packet_event(correlated: bool, now: u64) -> (r: SessionEvent)
    ensures
        r == (if correlated {
            SessionEvent::CorrelatedPacket(now)
        } else {
            SessionEvent::Tick(now)
        }),
{
    if correlated {
        SessionEvent::CorrelatedPacket(now)
    } else {
        SessionEvent::Tick(now)
    }
}

/// A draining session stops on a tick only once the grace period has passed
/// since the last activity; until then it keeps draining.
pub proof fn lemma_stops_only_after_grace(s: Session, now: u64)
    requires
        s.phase == Phase::Draining,
    ensures
        next_session(s, SessionEvent::Tick(now)).phase == Phase::Stopped <==> grace_elapsed(s, now),
        !grace_elapsed(s, now) ==> next_session(s, SessionEvent::Tick(now)) == s,
{
}

/// A correlated packet during the grace window restarts the countdown: a tick at
/// `now` no later than the grace period after the packet leaves the session draining.
pub proof fn lemma_packet_resets_grace(s: Session, at: u64, now: u64)
    requires
        s.phase == Phase::Draining,
        now <= at + s.grace_ms,
    ensures
        next_session(next_session(s, SessionEvent::CorrelatedPacket(at)), SessionEvent::Tick(now)).phase
            == Phase::Draining,
{
}

/// Exit is recorded once: once the session has seen the process exit, a later
/// exit report changes nothing, the time of the first included.
pub proof fn lemma_exit_recorded_once(s: Session, now: u64)
    requires
        s.exited,
        s.phase != Phase::Running,
    ensures
        next_session(s, SessionEvent::ProcessExited(now)) == s,
{
}

} // verus!
