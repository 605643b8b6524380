use vstd::prelude::*;

use crate::frame::CanFrame;

verus! {

/// Why a non-blocking transfer attempt did not complete: the peer would
/// block, or it failed with its own error.
#[derive(Copy, Clone, Debug, PartialEq, Eq, Structural)]
pub enum NbError<E> {
    WouldBlock,
    Other(E),
}

/// A received CAN frame as the hardware hands it over: an extended
/// identifier where the frame had one, and payload bytes where it was a
/// data frame.
pub struct ReceivedFrame {
    pub extended_id: Option<u32>,
    pub data: Option<Vec<u8>>,
}

/// The capability frames arrive by; the surrounding application implements
/// it for its CAN interface. `receive` promises nothing of what comes back:
/// the bus handles every outcome.
pub trait Receiver {
    type Error;

    /// Pulls at most one frame without blocking.
    fn receive(&mut self) -> Result<ReceivedFrame, NbError<Self::Error>>;
}

/// The capability frames depart by; the surrounding application implements
/// it for its CAN interface.
///
/// An implementation accounts for the frames it has accepted in `sent`, and
/// says in `may_displace` whether accepting a frame can ever push a pending
/// lower-priority frame back out to the caller; one that never does lets
/// callers conclude exactly which frames went out.
pub trait Transmitter {
    type Error;

    /// The frames accepted so far, oldest first. Left unconstrained
    /// unless the implementation gives it meaning.
    open spec fn sent(&self) -> Seq<CanFrame> {
        vstd::pervasive::arbitrary()
    }

    /// Whether accepting a frame can ever hand a displaced pending frame
    /// back. Left unconstrained unless the implementation gives it
    /// meaning.
    open spec fn may_displace(&self) -> bool {
        vstd::pervasive::arbitrary()
    }

    /// Offers one frame. Acceptance appends the frame to `sent`; a
    /// displaced pending frame may come back and then needs retransmitting;
    /// `WouldBlock` and errors leave `sent` unchanged.
    fn transmit(&mut self, frame: &CanFrame) -> (r: Result<Option<CanFrame>, NbError<Self::Error>>)
        ensures
            final(self).may_displace() == old(self).may_displace(),
            match r {
                Ok(displaced) => {
                    &&& final(self).sent() == old(self).sent().push(*frame)
                    &&& displaced is Some ==> old(self).may_displace()
                },
                Err(_) => final(self).sent() == old(self).sent(),
            },
    ;
}

} // verus!
