use vstd::prelude::*;

use crate::id::Id;

verus! {

/// Errors of message construction.
#[derive(Copy, Clone, Debug, PartialEq, Eq, Structural)]
pub enum MessageError {
    Max255Bytes,
}

/// An outbound logical message: an identifier and up to 255 payload bytes.
pub struct Message<'a> {
    id: Id,
    data: &'a [u8],
}

impl<'a> Message<'a> {
    /// A message payload never exceeds 255 bytes.
    #[verifier::type_invariant]
    pub closed spec fn wf(&self) -> bool {
        self.data@.len() <= 255
    }

    /// The identifier of the message.
    pub closed spec fn spec_id(&self) -> Id {
        self.id
    }

    /// The payload of the message.
    pub closed spec fn spec_data(&self) -> Seq<u8> {
        self.data@
    }

    /// Wraps an identifier and a payload; fails exactly when the payload is
    /// longer than 255 bytes.
    pub fn new(id: Id, data: &'a [u8]) -> (r: Result<Message<'a>, MessageError>)
        ensures
            match r {
                Ok(m) => data@.len() <= 255 && m.spec_id() == id && m.spec_data() == data@,
                Err(e) => data@.len() > 255 && e == MessageError::Max255Bytes,
            },
    {
        if data.len() > 255 {
            return Err(MessageError::Max255Bytes);
        }
        Ok(Message { id, data })
    }

    /// The identifier of the message.
    pub fn id(&self) -> (r: Id)
        ensures
            r == self.spec_id(),
    {
        self.id
    }

    /// The payload of the message; at most 255 bytes.
    pub fn data(&self) -> (r: &[u8])
        ensures
            r@ == self.spec_data(),
            r@.len() <= 255,
    {
        proof {
            use_type_invariant(self);
        }
        self.data
    }
}

} // verus!
