//! Configuration for a TCP transport.  The sockets themselves are opened
//! and configured outside; what is held and decided here is which options
//! a transport applies.

use vstd::prelude::*;

verus! {

/// Socket options a TCP transport applies to every connection it makes or
/// accepts.  An unset option leaves the system default in place; the
/// keepalive interval is in milliseconds, with `Some(None)` disabling
/// keepalive probes explicitly.
#[derive(Clone, Copy, PartialEq, Eq, Debug)]
pub struct TcpTransport {
    pub recv_buffer_size: Option<usize>,
    pub send_buffer_size: Option<usize>,
    pub ttl: Option<u32>,
    pub keepalive: Option<Option<u64>>,
    pub nodelay: Option<bool>,
}

impl TcpTransport {
    /// A transport leaving every option at its system default.
    pub fn new() -> (t: Self)
        ensures
            t.recv_buffer_size is None,
            t.send_buffer_size is None,
            t.ttl is None,
            t.keepalive is None,
            t.nodelay is None,
    {
        TcpTransport {
            recv_buffer_size: None,
            send_buffer_size: None,
            ttl: None,
            keepalive: None,
            nodelay: None,
        }
    }

    /// Sets the receive buffer size.
    pub fn set_recv_buffer_size(&mut self, size: usize) -> (r: &mut Self)
        ensures
            *r == (TcpTransport { recv_buffer_size: Some(size), ..*old(self) }),
            *final(self) == *final(r),
    {
        self.recv_buffer_size = Some(size);
        self
    }

    /// Sets the send buffer size.
    pub fn set_send_buffer_size(&mut self, size: usize) -> (r: &mut Self)
        ensures
            *r == (TcpTransport { send_buffer_size: Some(size), ..*old(self) }),
            *final(self) == *final(r),
    {
        self.send_buffer_size = Some(size);
        self
    }

    /// Sets the time-to-live of sent packets.
    pub fn set_ttl(&mut self, ttl: u32) -> (r: &mut Self)
        ensures
            *r == (TcpTransport { ttl: Some(ttl), ..*old(self) }),
            *final(self) == *final(r),
    {
        self.ttl = Some(ttl);
        self
    }

    /// Sets the keepalive probe interval in milliseconds, or disables
    /// keepalive with `None`.
    pub fn set_keepalive(&mut self, keepalive: Option<u64>) -> (r: &mut Self)
        ensures
            *r == (TcpTransport { keepalive: Some(keepalive), ..*old(self) }),
            *final(self) == *final(r),
    {
        self.keepalive = Some(keepalive);
        self
    }

    /// Enables or disables small-packet coalescing.
    pub fn set_nodelay(&mut self, nodelay: bool) -> (r: &mut Self)
        ensures
            *r == (TcpTransport { nodelay: Some(nodelay), ..*old(self) }),
            *final(self) == *final(r),
    {
        self.nodelay = Some(nodelay);
        self
    }
}

impl Default for TcpTransport {
    /// The same as [`TcpTransport::new`]: every option unset.
    fn default() -> (t: Self)
        ensures
            t == (TcpTransport {
                recv_buffer_size: None,
                send_buffer_size: None,
                ttl: None,
                keepalive: None,
                nodelay: None,
            }),
    {
        TcpTransport::new()
    }
}

} // verus!
