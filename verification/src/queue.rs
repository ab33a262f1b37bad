//! Outgoing channel guard.
//!
//! All outbound frames of one connection are funneled through this
//! single-consumer queue; one dedicated writer drains it and transmits the
//! frames in submission order. Several logical producers (the frame handler,
//! the heartbeat prober, the close path) may submit, yet frame bytes are
//! never interleaved on the wire: ordered, whole-frame delivery is a
//! structural property of the queue rather than a locking discipline.

use vstd::prelude::*;

verus! {

pub struct OutboundQueue {
    frames: Vec<Vec<u8>>,
}

impl OutboundQueue {
    /// The frames waiting to be transmitted, oldest first.
    pub closed spec fn pending(&self) -> Seq<Seq<u8>> {
        self.frames.deep_view()
    }

    pub fn new() -> (q: OutboundQueue)
        ensures
            q.pending() == Seq::<Seq<u8>>::empty(),
    {
        let q = OutboundQueue { frames: Vec::new() };
        proof {
            assert(q.pending() =~= Seq::<Seq<u8>>::empty());
        }
        q
    }

    /// Submit one fully formed frame for transmission. The frame is appended
    /// after every frame submitted earlier and before every later one.
    pub fn submit(&mut self, frame: Vec<u8>)
        ensures
            final(self).pending() == old(self).pending().push(frame@),
    {
        self.frames.push(frame);
        proof {
            assert(self.pending() =~~= old(self).pending().push(frame@));
        }
    }

    /// Hand every queued frame to the writer, in submission order, leaving
    /// the queue empty.
    pub fn drain(&mut self) -> (out: Vec<Vec<u8>>)
        ensures
            out.deep_view() == old(self).pending(),
            final(self).pending() == Seq::<Seq<u8>>::empty(),
    {
        let mut out: Vec<Vec<u8>> = Vec::new();
        core::mem::swap(&mut out, &mut self.frames);
        proof {
            assert(self.pending() =~= Seq::<Seq<u8>>::empty());
        }
        out
    }

    /// How many frames are waiting.
    pub fn len(&self) -> (n: usize)
        ensures
            n == self.pending().len(),
    {
        self.frames.len()
    }
}

} // verus!
