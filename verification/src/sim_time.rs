use vstd::prelude::*;

verus! {

/// Shared simulation clock: a signed offset, in milliseconds, added to the
/// real UTC time. The caller samples the real clock and passes it in as
/// `now_ms` (milliseconds since the Unix epoch), so that every operation here
/// is a pure function of its arguments.
pub struct TimeState {
    time_offset_ms: i64,
}

impl TimeState {
    /// The current offset from real time, in milliseconds.
    pub closed spec fn spec_time_offset(&self) -> int {
        self.time_offset_ms as int
    }

    /// Returns the current simulation time for the given real time.
    pub fn time(&self, now_ms: i64) -> (t: i64)
        requires
            i64::MIN <= now_ms + self.spec_time_offset() <= i64::MAX,
        ensures
            t == now_ms + self.spec_time_offset(),
    {
        now_ms + self.time_offset_ms
    }

    /// Sets the current simulation time, given the real time.
    pub fn set_time(&mut self, time_ms: i64, now_ms: i64)
        requires
            i64::MIN <= time_ms - now_ms <= i64::MAX,
        ensures
            final(self).spec_time_offset() == time_ms - now_ms,
    {
        self.time_offset_ms = time_ms - now_ms;
    }

    /// Returns the time offset.
    pub fn time_offset(&self) -> (r: i64)
        ensures
            r == self.spec_time_offset(),
    {
        self.time_offset_ms
    }

    /// Sets the time offset directly.
    pub fn set_time_offset(&mut self, offset_ms: i64)
        ensures
            final(self).spec_time_offset() == offset_ms,
    {
        self.time_offset_ms = offset_ms;
    }

    /// Advances the simulation time.
    pub fn advance_time(&mut self, delta_ms: i64)
        requires
            i64::MIN <= old(self).spec_time_offset() + delta_ms <= i64::MAX,
        ensures
            final(self).spec_time_offset() == old(self).spec_time_offset() + delta_ms,
    {
        self.time_offset_ms = self.time_offset_ms + delta_ms;
    }

    /// Rewinds the simulation time.
    pub fn rewind_time(&mut self, delta_ms: i64)
        requires
            i64::MIN <= old(self).spec_time_offset() - delta_ms <= i64::MAX,
        ensures
            final(self).spec_time_offset() == old(self).spec_time_offset() - delta_ms,
    {
        self.time_offset_ms = self.time_offset_ms - delta_ms;
    }
}

impl Default for TimeState {
    /// A clock with no offset: simulation time equals real time.
    fn default() -> (s: Self)
        ensures
            s.spec_time_offset() == 0,
    {
        TimeState { time_offset_ms: 0 }
    }
}

} // verus!
