//! Health-message timing: when the last heartbeat arrived and the server
//! timestamp it carried.

use vstd::prelude::*;
use crate::clock::unix_time_micros;

verus! {

/// Shared ping state updated by the health subscriber, read by the render loop.
pub struct PingState {
    /// Last health arrival time (microseconds since the epoch; 0 = never)
    last_health: u64,
    /// Server timestamp from the last heartbeat (seconds since the epoch)
    server_ts: u64,
}

impl PingState {
    pub closed spec fn spec_last_health(&self) -> u64 {
        self.last_health
    }

    pub closed spec fn spec_server_ts(&self) -> u64 {
        self.server_ts
    }

    /// Creates a state with no heartbeat recorded.
    pub fn new() -> (p: Self)
        ensures
            p.spec_last_health() == 0,
            p.spec_server_ts() == 0,
    {
        Self { last_health: 0, server_ts: 0 }
    }

    /// Records the current time (microseconds since the Unix epoch) as the
    /// arrival of a health message. The time is a clock reading, so no clause
    /// states it; a clock set before the epoch records nothing.
    pub fn record_health(&mut self)
        ensures
            final(self).spec_server_ts() == old(self).spec_server_ts(),
    {
        match unix_time_micros() {
            Some(now) => self.record_health_at(now),
            None => {},
        }
    }

    /// Records `now_micros` as the arrival time of a health message.
    pub fn record_health_at(&mut self, now_micros: u64)
        ensures
            final(self).spec_last_health() == now_micros,
            final(self).spec_server_ts() == old(self).spec_server_ts(),
    {
        self.last_health = now_micros;
    }

    /// Microseconds from the last health message to `now_micros` (wrapping
    /// like the unsigned subtraction it is), or `None` if none was recorded.
    pub fn micros_since_health(&self, now_micros: u64) -> (r: Option<u64>)
        ensures
            self.spec_last_health() == 0 ==> r is None,
            self.spec_last_health() != 0 ==> r == Some(
                (if now_micros >= self.spec_last_health() {
                    now_micros - self.spec_last_health()
                } else {
                    now_micros - self.spec_last_health() + 0x1_0000_0000_0000_0000
                }) as u64),
    {
        if self.last_health == 0 {
            None
        } else {
            Some(now_micros.wrapping_sub(self.last_health))
        }
    }

    /// Stores the server timestamp of the last heartbeat.
    pub fn set_server_ts(&mut self, ts: u64)
        ensures
            final(self).spec_server_ts() == ts,
            final(self).spec_last_health() == old(self).spec_last_health(),
    {
        self.server_ts = ts;
    }

    /// The server timestamp of the last heartbeat (0 if none).
    pub fn server_ts(&self) -> (ts: u64)
        ensures
            ts == self.spec_server_ts(),
    {
        self.server_ts
    }

    /// The arrival time of the last heartbeat (0 if none).
    pub fn last_health(&self) -> (t: u64)
        ensures
            t == self.spec_last_health(),
    {
        self.last_health
    }
}

} // verus!
