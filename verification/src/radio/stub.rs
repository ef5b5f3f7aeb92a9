//! In-memory stub radio for bring-up without hardware: a first-in, first-out queue
//! of frames "received over the air".

use std::collections::VecDeque;

use vstd::prelude::*;

use super::{RadioError, WireFrame};
use super::framing::frames_of;

verus! {

/// Loopback-capable stub: `inject` queues frames for `try_recv`; `send` drops them.
pub struct StubRadio {
    inbound: VecDeque<WireFrame>,
}

impl View for StubRadio {
    type V = Seq<Seq<u8>>;

    /// The queued frames, oldest first.
    closed spec fn view(&self) -> Seq<Seq<u8>> {
        frames_of(self.inbound@)
    }
}

impl StubRadio {
    /// A stub with nothing queued.
    pub fn new() -> (r: Self)
        ensures
            r@ == Seq::<Seq<u8>>::empty(),
    {
        let r = StubRadio { inbound: VecDeque::new() };
        assert(r@ =~= Seq::<Seq<u8>>::empty());
        r
    }

    /// Test helper: push a frame as if the coprocessor received it over the air.
    pub fn inject(&mut self, frame: WireFrame)
        ensures
            final(self)@ == old(self)@.push(frame@),
    {
        self.inbound.push_back(frame);
        assert(final(self)@ =~= old(self)@.push(frame@));
    }

    /// Human-readable backend name.
    pub fn name(&self) -> (s: &'static str)
        ensures
            s@ == "stub"@,
    {
        "stub"
    }

    /// Sending on the stub drops the frame.
    pub fn send(&self, frame: &[u8]) -> (r: Result<(), RadioError>)
        ensures
            r is Ok,
    {
        Ok(())
    }

    /// The oldest queued frame, if any; a receiver waits and tries again on None.
    pub fn try_recv(&mut self) -> (r: Option<WireFrame>)
        ensures
            old(self)@.len() == 0 ==> r is None && final(self)@ == old(self)@,
            old(self)@.len() > 0 ==> (r matches Some(f) && f@ == old(self)@[0] && final(self)@
                == old(self)@.drop_first()),
    {
        let r = self.inbound.pop_front();
        assert(final(self)@ =~= if old(self)@.len() == 0 { old(self)@ } else { old(self)@.drop_first() });
        r
    }
}

impl Default for StubRadio {
    fn default() -> (r: Self)
        ensures
            r@ == Seq::<Seq<u8>>::empty(),
    {
        StubRadio::new()
    }
}

} // verus!
