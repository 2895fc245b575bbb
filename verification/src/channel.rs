//! One framed channel: exactly one connection (or none), used for at
//! most one send and one receive, then closed.
//!
//! The transport itself stays outside the crate.  Here a channel carries
//! the two byte streams it would exchange with a peer: `sent_bytes()`
//! collects everything handed to the transport for writing, and
//! `peer_bytes()` holds everything the peer delivers before closing its
//! side, of which `consumed()` bytes have been read so far.  The caller
//! that owns the real connection writes out what `send` appends and
//! feeds in what the peer sent.

use crate::codec::{copy_range, encode_frame, fits_frame, frame_of, frame_payload};
use crate::errors::{IoDetail, QueryError};
use vstd::bytes::u32_from_le_bytes;
use vstd::prelude::*;
use vstd::slice::slice_subrange;

verus! {

/// A framed channel over one byte stream.
pub struct Channel {
    connected: bool,
    sent: Vec<u8>,
    peer: Vec<u8>,
    consumed: usize,
}

impl Channel {
    /// Whether the channel currently holds a live connection.
    pub closed spec fn is_connected(self) -> bool {
        self.connected
    }

    /// Everything handed to the transport for writing so far.
    pub closed spec fn sent_bytes(self) -> Seq<u8> {
        self.sent@
    }

    /// Everything the peer delivers before closing its side.
    pub closed spec fn peer_bytes(self) -> Seq<u8> {
        self.peer@
    }

    /// How many of the peer's bytes have been read already.
    pub closed spec fn consumed(self) -> int {
        self.consumed as int
    }

    /// A channel never consumes more than the peer delivered.
    pub open spec fn wf(self) -> bool {
        0 <= self.consumed() <= self.peer_bytes().len()
    }

    /// The peer's bytes not yet read.
    pub open spec fn pending(self) -> Seq<u8>
        recommends
            self.wf(),
    {
        self.peer_bytes().skip(self.consumed())
    }

    /// A fresh channel in the connected state; `peer` holds the bytes the
    /// peer will deliver before closing its side.
    pub fn connect(peer: Vec<u8>) -> (c: Channel)
        ensures
            c.wf(),
            c.is_connected(),
            c.sent_bytes() == Seq::<u8>::empty(),
            c.peer_bytes() == peer@,
            c.consumed() == 0,
    {
        Channel { connected: true, sent: Vec::new(), peer, consumed: 0 }
    }

    /// A channel that never held a connection.
    pub fn unconnected() -> (c: Channel)
        ensures
            c.wf(),
            !c.is_connected(),
            c.sent_bytes() == Seq::<u8>::empty(),
            c.peer_bytes() == Seq::<u8>::empty(),
            c.consumed() == 0,
    {
        Channel { connected: false, sent: Vec::new(), peer: Vec::new(), consumed: 0 }
    }

    /// Shuts the channel; safe on an already-closed channel, and never
    /// undoes or invents any traffic.
    pub fn close(&mut self)
        requires
            old(self).wf(),
        ensures
            final(self).wf(),
            !final(self).is_connected(),
            final(self).sent_bytes() == old(self).sent_bytes(),
            final(self).peer_bytes() == old(self).peer_bytes(),
            final(self).consumed() == old(self).consumed(),
    {
        self.connected = false;
    }

    /// Frames `payload` and hands the whole frame to the transport; on a
    /// channel with no live connection it fails and moves no byte,
    /// whatever the payload.
    pub fn send(&mut self, payload: &Vec<u8>) -> (r: Result<(), QueryError>)
        requires
            old(self).wf(),
            old(self).is_connected() ==> fits_frame(payload@),
        ensures
            final(self).wf(),
            final(self).is_connected() == old(self).is_connected(),
            final(self).peer_bytes() == old(self).peer_bytes(),
            final(self).consumed() == old(self).consumed(),
            old(self).is_connected() ==> r is Ok && final(self).sent_bytes() == old(self).sent_bytes()
                + frame_of(payload@),
            !old(self).is_connected() ==> (r matches Err(QueryError::NotConnected)
                && final(self).sent_bytes() == old(self).sent_bytes()),
    {
        if !self.connected {
            return Err(QueryError::NotConnected);
        }
        let mut frame = encode_frame(payload);
        self.sent.append(&mut frame);
        Ok(())
    }

    /// Reads one frame: first the 4-byte length, then exactly that many
    /// payload bytes.  Fails without reading anything when the peer's
    /// bytes stop short of a whole frame, and fails on a channel with no
    /// live connection.
    pub fn receive(&mut self) -> (r: Result<Vec<u8>, QueryError>)
        requires
            old(self).wf(),
        ensures
            final(self).wf(),
            final(self).is_connected() == old(self).is_connected(),
            final(self).sent_bytes() == old(self).sent_bytes(),
            final(self).peer_bytes() == old(self).peer_bytes(),
            !old(self).is_connected() ==> (r matches Err(QueryError::NotConnected)
                && final(self).consumed() == old(self).consumed()),
            old(self).is_connected() ==> match frame_payload(old(self).pending()) {
                Some(p) => r matches Ok(v) && v@ == p
                    && final(self).consumed() == old(self).consumed() + 4 + p.len(),
                None => r matches Err(QueryError::Io(IoDetail::ClosedEarly))
                    && final(self).consumed() == old(self).consumed(),
            },
    {
        if !self.connected {
            return Err(QueryError::NotConnected);
        }
        let avail = self.peer.len() - self.consumed;
        if avail < 4 {
            proof {
                assert(old(self).pending().len() < 4);
            }
            return Err(QueryError::Io(IoDetail::ClosedEarly));
        }
        let header = slice_subrange(self.peer.as_slice(), self.consumed, self.consumed + 4);
        proof {
            assert(header@ =~= old(self).pending().subrange(0, 4));
        }
        let n = u32_from_le_bytes(header) as usize;
        if avail - 4 < n {
            return Err(QueryError::Io(IoDetail::ClosedEarly));
        }
        let payload = copy_range(&self.peer, self.consumed + 4, self.consumed + 4 + n);
        proof {
            assert(payload@ =~= old(self).pending().subrange(4, 4 + n as int));
        }
        self.consumed = self.consumed + 4 + n;
        Ok(payload)
    }

    /// Whether the channel currently holds a live connection.
    pub fn connected(&self) -> (b: bool)
        ensures
            b == self.is_connected(),
    {
        self.connected
    }

    /// The bytes handed to the transport so far.
    pub fn written(&self) -> (r: &Vec<u8>)
        ensures
            r@ == self.sent_bytes(),
    {
        &self.sent
    }
}

} // verus!
