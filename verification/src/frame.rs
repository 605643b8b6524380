use vstd::prelude::*;

use crate::id::Id;

verus! {

/// A frame keyed by the identifier value `id_val` and carrying `data`.
pub open spec fn frame_like(f: CanFrame, id_val: u32, data: Seq<u8>) -> bool {
    f.spec_id()@ == id_val && f.spec_data() == data
}

/// A CAN data frame: an identifier and 0 to 8 payload bytes.
///
/// The payload lives in a fixed 8-byte buffer; `dlc` says how many of its
/// leading bytes carry data.
#[derive(Copy, Clone, Debug)]
pub struct CanFrame {
    id: Id,
    dlc: usize,
    data: [u8; 8],
}

impl CanFrame {
    /// The data length code never exceeds the buffer.
    #[verifier::type_invariant]
    pub closed spec fn wf(&self) -> bool {
        self.dlc <= 8
    }

    /// The identifier the frame is keyed by.
    pub closed spec fn spec_id(&self) -> Id {
        self.id
    }

    /// The bytes the frame carries.
    pub closed spec fn spec_data(&self) -> Seq<u8> {
        self.data@.take(self.dlc as int)
    }

    /// Creates a new data frame carrying the given bytes.
    pub fn new(id: Id, data: &[u8]) -> (r: CanFrame)
        requires
            data@.len() <= 8,
        ensures
            r.spec_id() == id,
            r.spec_data() == data@,
    {
        let n: usize = data.len();
        let mut buf: [u8; 8] = [0; 8];
        let mut i: usize = 0;
        while i < n
            invariant
                i <= n,
                n == data@.len() <= 8,
                buf@.len() == 8,
                forall|j: int| 0 <= j < i ==> buf@[j] == data@[j],
            decreases n - i,
        {
            buf[i] = data[i];
            i += 1;
        }
        let r = CanFrame { id, dlc: n, data: buf };
        proof {
            assert(r.spec_data() =~= data@);
        }
        r
    }

    /// True if this frame is a remote frame; this stack only builds data
    /// frames.
    pub fn is_remote_frame(&self) -> (r: bool)
        ensures
            r == false,
    {
        false
    }

    /// True if this frame is a data frame.
    pub fn is_data_frame(&self) -> (r: bool)
        ensures
            r == true,
    {
        !self.is_remote_frame()
    }

    /// The frame payload (0 to 8 bytes) of a data frame.
    pub fn data(&self) -> (r: Option<&[u8]>)
        ensures
            match r {
                Some(bytes) => bytes@ == self.spec_data(),
                None => false,
            },
    {
        proof {
            use_type_invariant(self);
        }
        if self.is_data_frame() {
            Some(&self.data[0..self.dlc])
        } else {
            None
        }
    }

    /// The identifier of the frame.
    pub fn id(&self) -> (r: Id)
        ensures
            r == self.spec_id(),
    {
        self.id
    }
}

} // verus!
