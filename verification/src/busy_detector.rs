use vstd::prelude::*;

verus! {

/// The longest time, in microseconds, that a thread may stay unparked
/// before the detector finds the runtime too busy.
pub const ALLOWED_DELAY_MICROS: u64 = 5000;

/// The time, in microseconds, for which a warning keeps later warnings
/// back.
pub const WARN_SUPPRESSION_MICROS: u64 = 30_000_000;

/// What the detector keeps for all threads together. Timestamps are in
/// microseconds since a reference that the caller has chosen.
#[derive(Debug, Clone, Copy, PartialEq, Eq, Structural)]
pub struct BusyDetector {
    /// Whether the detector looks at parking threads at all.
    pub enabled: bool,
    /// A warning is due only after this time.
    pub next_warn_timestamp: u64,
    /// How many warnings were kept back since the last one that was given.
    pub suppressed_warn_count: u64,
}

/// What the detector keeps for one thread.
#[derive(Debug, Clone, Copy, PartialEq, Eq, Structural)]
pub struct ThreadClock {
    /// When the thread was last unparked.
    pub last_unpark_timestamp: u64,
}

/// A finding of the detector: a thread was not parked for `delta`
/// microseconds, and `suppressed` findings like it were kept back before
/// this one.
#[derive(Debug, Clone, Copy, PartialEq, Eq, Structural)]
pub struct BusyWarning {
    pub delta: u64,
    pub suppressed: u64,
}

/// For how long a thread was unparked, if it parks at `now`: nothing when
/// the clock reads less than at the unparking.
pub open spec fn unparked_for(thread: ThreadClock, now: u64) -> u64 {
    if now >= thread.last_unpark_timestamp {
        (now - thread.last_unpark_timestamp) as u64
    } else {
        0
    }
}

/// Whether a warning at `now` is given, and not kept back.
pub open spec fn warning_is_due(detector: BusyDetector, now: u64) -> bool {
    detector.next_warn_timestamp < now
}

/// The time until which a warning given at `now` keeps the next ones back.
pub open spec fn next_warn_after(now: u64) -> u64 {
    if now + WARN_SUPPRESSION_MICROS > u64::MAX {
        u64::MAX
    } else {
        (now + WARN_SUPPRESSION_MICROS) as u64
    }
}

/// The number of warnings kept back, after one more. The count wraps
/// around, as a counter of its width does.
pub open spec fn one_more_suppressed(count: u64) -> u64 {
    if count == u64::MAX {
        0
    } else {
        (count + 1) as u64
    }
}

/// The detector after a warning for `now` was asked for: given, it keeps
/// the next ones back and starts to count anew; kept back, it is counted.
pub open spec fn after_warn(detector: BusyDetector, now: u64) -> BusyDetector {
    if warning_is_due(detector, now) {
        BusyDetector {
            next_warn_timestamp: next_warn_after(now),
            suppressed_warn_count: 0,
            ..detector
        }
    } else {
        BusyDetector {
            suppressed_warn_count: one_more_suppressed(detector.suppressed_warn_count),
            ..detector
        }
    }
}

/// The warning that is given, if one is.
pub open spec fn warning_given(detector: BusyDetector, delta: u64, now: u64) -> Option<
    BusyWarning,
> {
    if warning_is_due(detector, now) {
        Some(BusyWarning { delta, suppressed: detector.suppressed_warn_count })
    } else {
        None
    }
}

/// Whether the parking of a thread at `now` asks for a warning: the
/// detector is enabled and the thread was unparked for longer than allowed.
pub open spec fn parks_late(detector: BusyDetector, thread: ThreadClock, now: u64) -> bool {
    detector.enabled && unparked_for(thread, now) > ALLOWED_DELAY_MICROS
}

impl BusyDetector {
    /// A detector that is switched off and has given no warning yet.
    pub fn new() -> (detector: Self)
        ensures
            detector == (BusyDetector {
                enabled: false,
                next_warn_timestamp: 0,
                suppressed_warn_count: 0,
            }),
    {
        BusyDetector { enabled: false, next_warn_timestamp: 0, suppressed_warn_count: 0 }
    }
}

impl ThreadClock {
    /// The clock of a thread that was never unparked.
    pub fn new() -> (thread: Self)
        ensures
            thread.last_unpark_timestamp == 0,
    {
        ThreadClock { last_unpark_timestamp: 0 }
    }
}

/// Switches the detector on or off.
pub fn set_enabled(detector: &mut BusyDetector, enabled: bool)
    ensures
        *final(detector) == (BusyDetector { enabled, ..*old(detector) }),
{
    detector.enabled = enabled;
}

/// Notes that a thread was unparked at `now`.
pub fn thread_unpark(thread: &mut ThreadClock, now: u64)
    ensures
        final(thread).last_unpark_timestamp == now,
{
    thread.last_unpark_timestamp = now;
}

/// Looks at a thread that parks at `now`. A detector that is switched off
/// does nothing. One that is switched on asks for a warning when the thread
/// was unparked for more than `ALLOWED_DELAY_MICROS`, and `emit_warn`
/// decides whether the warning is given.
pub fn thread_park(detector: &mut BusyDetector, thread: &ThreadClock, now: u64) -> (warning:
    Option<BusyWarning>)
    ensures
        *final(detector) == if parks_late(*old(detector), *thread, now) {
            after_warn(*old(detector), now)
        } else {
            *old(detector)
        },
        warning == if parks_late(*old(detector), *thread, now) {
            warning_given(*old(detector), unparked_for(*thread, now), now)
        } else {
            None
        },
{
    if !detector.enabled {
        return None;
    }
    let delta = if now >= thread.last_unpark_timestamp {
        now - thread.last_unpark_timestamp
    } else {
        0
    };
    if delta > ALLOWED_DELAY_MICROS {
        emit_warn(detector, delta, now)
    } else {
        None
    }
}

/// Gives a warning, or keeps it back. A warning is given when the time for
/// which the last one keeps others back is over; it tells how many were
/// kept back since, and keeps the next ones back for
/// `WARN_SUPPRESSION_MICROS`. A warning that comes too early is counted and
/// not given.
pub fn emit_warn(detector: &mut BusyDetector, delta: u64, now: u64) -> (warning: Option<
    BusyWarning,
>)
    ensures
        *final(detector) == after_warn(*old(detector), now),
        warning == warning_given(*old(detector), delta, now),
{
    if detector.next_warn_timestamp < now {
        detector.next_warn_timestamp = if now > u64::MAX - WARN_SUPPRESSION_MICROS {
            u64::MAX
        } else {
            now + WARN_SUPPRESSION_MICROS
        };
        let suppressed = detector.suppressed_warn_count;
        detector.suppressed_warn_count = 0;
        Some(BusyWarning { delta, suppressed })
    } else {
        detector.suppressed_warn_count = if detector.suppressed_warn_count == u64::MAX {
            0
        } else {
            detector.suppressed_warn_count + 1
        };
        None
    }
}

} // verus!
