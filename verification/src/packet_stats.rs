//! Packet and parse-error counters of the stream receiver.

use vstd::prelude::*;

verus! {

/// `x + 1`, wrapping to 0 after `u64::MAX`.
pub open spec fn wrapping_inc(x: u64) -> u64 {
    if x == u64::MAX { 0 } else { (x + 1) as u64 }
}

pub struct PacketStats {
    pub packet_count: u64,
    pub error_count: u64,
}

impl PacketStats {
    /// Creates counters at zero.
    pub fn new() -> (s: Self)
        ensures
            s.packet_count == 0,
            s.error_count == 0,
    {
        Self { packet_count: 0, error_count: 0 }
    }

    /// Counts one received packet.
    pub fn inc_packet(&mut self)
        ensures
            final(self).packet_count == wrapping_inc(old(self).packet_count),
            final(self).error_count == old(self).error_count,
    {
        self.packet_count = self.packet_count.wrapping_add(1);
    }

    /// Counts one parse error.
    pub fn inc_error(&mut self)
        ensures
            final(self).error_count == wrapping_inc(old(self).error_count),
            final(self).packet_count == old(self).packet_count,
    {
        self.error_count = self.error_count.wrapping_add(1);
    }

    /// The number of packets counted so far.
    pub fn packet_count(&self) -> (n: u64)
        ensures
            n == self.packet_count,
    {
        self.packet_count
    }

    /// The number of parse errors counted so far.
    pub fn error_count(&self) -> (n: u64)
        ensures
            n == self.error_count,
    {
        self.error_count
    }
}

} // verus!
