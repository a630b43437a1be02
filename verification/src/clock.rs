//! The render side's own clock.
//!
//! The clock counts nanoseconds. It is read from the system once, when it
//! is started, and from then on moves only when the render loop advances
//! it: by one fixed step per chunk, whatever time has really passed.
use vstd::prelude::*;

verus! {

/// Nanoseconds in one second.
pub const NANOS_PER_SECOND: u64 = 1_000_000_000;

/// The playing time of `chunk_frames` frames at `sample_rate` frames per
/// second, in whole nanoseconds.
pub open spec fn chunk_nanos(chunk_frames: int, sample_rate: int) -> int {
    chunk_frames * NANOS_PER_SECOND / sample_rate
}

/// `value`, held at the largest timestamp where it would pass it.
pub open spec fn saturated(value: int) -> int {
    if value > u64::MAX {
        u64::MAX as int
    } else {
        value
    }
}

/// The playing time of one chunk in whole nanoseconds, rounded down.
///
/// There is none for a sample rate of zero or an empty chunk, nor where the
/// time does not fit the timestamp type.
pub fn chunk_duration_ns(chunk_frames: usize, sample_rate_hz: u32) -> (duration: Option<u64>)
    ensures
        duration.is_some() == (sample_rate_hz > 0 && 0 < chunk_nanos(
            chunk_frames as int,
            sample_rate_hz as int,
        ) <= u64::MAX),
        duration matches Some(nanos) ==> nanos == chunk_nanos(
            chunk_frames as int,
            sample_rate_hz as int,
        ),
{
    if sample_rate_hz == 0 {
        return None;
    }
    let nanos: u128 = chunk_frames as u128 * NANOS_PER_SECOND as u128 / sample_rate_hz as u128;
    if nanos == 0 || nanos > u64::MAX as u128 {
        None
    } else {
        Some(nanos as u64)
    }
}

/// Reads the system's high-resolution clock through `time::precise_time_ns`.
///
/// The reading counts nanoseconds from an epoch the system chooses; nothing
/// is claimed of its value.
#[verifier::external_body]
fn system_time_ns() -> (now: u64) {
    time::precise_time_ns()
}

/// A clock that is moved by hand, one fixed step at a time.
#[derive(Clone, Copy, Debug, PartialEq, Eq)]
pub struct RenderClock {
    now_ns: u64,
    step_ns: u64,
}

impl RenderClock {
    /// The clock's reading, in nanoseconds.
    pub closed spec fn spec_now(&self) -> u64 {
        self.now_ns
    }

    /// The step the clock moves by, in nanoseconds.
    pub closed spec fn spec_step(&self) -> u64 {
        self.step_ns
    }

    /// The step is not zero, so the clock never stands still.
    pub closed spec fn wf(&self) -> bool {
        self.step_ns > 0
    }

    /// A clock that reads `start_ns` and moves by `step_ns`; none for a step
    /// of zero.
    pub fn new(start_ns: u64, step_ns: u64) -> (clock: Option<Self>)
        ensures
            clock.is_some() == (step_ns > 0),
            clock matches Some(made) ==> made.wf() && made.now() == start_ns && made.step()
                == step_ns,
    {
        if step_ns == 0 {
            None
        } else {
            Some(RenderClock { now_ns: start_ns, step_ns })
        }
    }

    /// A clock that starts at the system's present high-resolution time and
    /// moves by `step_ns`; none for a step of zero.
    pub fn start_now(step_ns: u64) -> (clock: Option<Self>)
        ensures
            clock.is_some() == (step_ns > 0),
            clock matches Some(made) ==> made.wf() && made.step() == step_ns,
    {
        RenderClock::new(system_time_ns(), step_ns)
    }

    /// The clock's reading, in nanoseconds.
    #[verifier::when_used_as_spec(spec_now)]
    pub fn now(&self) -> (now: u64)
        ensures
            now == self.spec_now(),
    {
        self.now_ns
    }

    /// The step the clock moves by, in nanoseconds.
    #[verifier::when_used_as_spec(spec_step)]
    pub fn step(&self) -> (step: u64)
        ensures
            step == self.spec_step(),
    {
        self.step_ns
    }

    /// Moves the clock forward by one step. A clock that would pass the
    /// largest timestamp stays at it.
    pub fn advance(&mut self)
        ensures
            final(self).step() == old(self).step(),
            final(self).wf() == old(self).wf(),
            final(self).now() == saturated(old(self).now() + old(self).step()),
    {
        self.now_ns = self.now_ns.saturating_add(self.step_ns);
    }
}

} // verus!
