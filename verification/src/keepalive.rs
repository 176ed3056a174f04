//! SSTP keepalive: after 10 s without traffic from the TUN device a REQUEST is
//! sent; more than 3 requests without a REPLY means the server is gone.
use vstd::prelude::*;
use tokio::time::Instant;
use crate::clock::{elapsed_nanos, now, NANOS_PER_SEC};
use crate::constants::{KEEPALIVE_INTERVAL_SECS, KEEPALIVE_MAX_MISSED};

verus! {

/// The idle interval, in nanoseconds.
pub open spec fn interval_nanos() -> int {
    KEEPALIVE_INTERVAL_SECS * NANOS_PER_SEC
}

/// Keepalive bookkeeping for one connection.
pub struct KeepaliveTracker {
    /// Counter for the REQUEST payload ("REQUEST N").
    pub request_counter: u32,
    /// Requests sent without a reply since the last reply.
    pub no_reply_count: u32,
    /// When data last came from the TUN device.
    pub last_tun_activity: Instant,
    /// When data last came from the TLS socket.
    pub last_socket_activity: Instant,
}

impl KeepaliveTracker {
    /// A tracker with both counters at zero and both activity times now.
    pub fn new() -> (r: Self)
        ensures
            r.request_counter == 0,
            r.no_reply_count == 0,
    {
        let t = now();
        KeepaliveTracker { request_counter: 0, no_reply_count: 0, last_tun_activity: t, last_socket_activity: now() }
    }

    /// Record data from the TUN device.
    pub fn mark_tun_activity(&mut self)
        ensures
            final(self).request_counter == old(self).request_counter,
            final(self).no_reply_count == old(self).no_reply_count,
            final(self).last_socket_activity == old(self).last_socket_activity,
    {
        self.last_tun_activity = now();
    }

    /// Record data from the TLS socket.
    pub fn mark_socket_activity(&mut self)
        ensures
            final(self).request_counter == old(self).request_counter,
            final(self).no_reply_count == old(self).no_reply_count,
            final(self).last_tun_activity == old(self).last_tun_activity,
    {
        self.last_socket_activity = now();
    }

    /// Record a keepalive REPLY: nothing is missing any more.
    pub fn received_reply(&mut self)
        ensures
            final(self).no_reply_count == 0,
            final(self).request_counter == old(self).request_counter,
            final(self).last_tun_activity == old(self).last_tun_activity,
            final(self).last_socket_activity == old(self).last_socket_activity,
    {
        self.no_reply_count = 0;
    }

    /// The decision of `should_send_request` for a TUN idle time of
    /// `idle_nanos`: when the interval has passed, a request with the current
    /// counter is due, the counter advances and one more reply is outstanding.
    /// The caller restarts the idle timer when a request is due.
    pub fn request_due(&mut self, idle_nanos: u128) -> (r: Option<u32>)
        requires
            old(self).request_counter < u32::MAX,
            old(self).no_reply_count < u32::MAX,
        ensures
            final(self).last_tun_activity == old(self).last_tun_activity,
            final(self).last_socket_activity == old(self).last_socket_activity,
            idle_nanos >= interval_nanos() ==> {
                &&& r == Some(old(self).request_counter)
                &&& final(self).request_counter == old(self).request_counter + 1
                &&& final(self).no_reply_count == old(self).no_reply_count + 1
            },
            idle_nanos < interval_nanos() ==> {
                &&& r is None
                &&& final(self).request_counter == old(self).request_counter
                &&& final(self).no_reply_count == old(self).no_reply_count
            },
    {
        if idle_nanos >= KEEPALIVE_INTERVAL_SECS as u128 * NANOS_PER_SEC {
            let counter = self.request_counter;
            self.request_counter = self.request_counter + 1;
            self.no_reply_count = self.no_reply_count + 1;
            Some(counter)
        } else {
            None
        }
    }

    /// Check whether a keepalive request is due; if so, return its counter and
    /// restart the idle timer so that the next one waits a full interval.
    pub fn should_send_request(&mut self) -> (r: Option<u32>)
        requires
            old(self).request_counter < u32::MAX,
            old(self).no_reply_count < u32::MAX,
        ensures
            final(self).last_socket_activity == old(self).last_socket_activity,
            r matches Some(c) ==> {
                &&& c == old(self).request_counter
                &&& final(self).request_counter == old(self).request_counter + 1
                &&& final(self).no_reply_count == old(self).no_reply_count + 1
            },
            r is None ==> {
                &&& final(self).request_counter == old(self).request_counter
                &&& final(self).no_reply_count == old(self).no_reply_count
                &&& final(self).last_tun_activity == old(self).last_tun_activity
            },
    {
        let idle = elapsed_nanos(&self.last_tun_activity);
        let r = self.request_due(idle);
        if r.is_some() {
            // Reset to avoid sending on every tick.
            self.last_tun_activity = now();
        }
        r
    }

    /// Whether the connection is dead: more requests than allowed went unanswered.
    pub fn is_dead(&self) -> (r: bool)
        ensures
            r == (self.no_reply_count > KEEPALIVE_MAX_MISSED),
    {
        self.no_reply_count > KEEPALIVE_MAX_MISSED
    }

    /// The wait before the next check for a TUN idle time of `idle_nanos`, in
    /// nanoseconds: the rest of the interval, or 100 ms once it has passed.
    pub fn check_delay(idle_nanos: u128) -> (r: u128)
        ensures
            idle_nanos >= interval_nanos() ==> r == 100_000_000,
            idle_nanos < interval_nanos() ==> r == interval_nanos() - idle_nanos,
    {
        let interval = KEEPALIVE_INTERVAL_SECS as u128 * NANOS_PER_SEC;
        if idle_nanos >= interval {
            100_000_000
        } else {
            interval - idle_nanos
        }
    }

    /// The wait before the next keepalive check, in nanoseconds.
    pub fn next_check_duration(&self) -> (r: u128)
        ensures
            0 < r <= interval_nanos(),
    {
        Self::check_delay(elapsed_nanos(&self.last_tun_activity))
    }
}

} // verus!
