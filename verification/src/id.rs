use vstd::prelude::*;

use crate::GLOBAL_ADDRESS;

verus! {

/// Errors of the 29-bit identifier codec.
#[derive(Copy, Clone, Debug, PartialEq, Eq, Structural)]
pub enum IdError {
    CanNotSendToDestination,
    DestinationRequired,
    InvalidId,
    InvalidPriority,
}

/// Message priority, the top 3 bits of the 29-bit identifier.
#[derive(Copy, Clone, Debug, PartialEq, Eq, Structural)]
pub enum Priority {
    Priority0,
    Priority1,
    Priority2,
    Priority3,
    Priority4,
    Priority5,
    Priority6,
    Priority7,
}

/// The 3-bit value a priority stands for.
pub open spec fn priority_bits(p: Priority) -> u32 {
    match p {
        Priority::Priority0 => 0,
        Priority::Priority1 => 1,
        Priority::Priority2 => 2,
        Priority::Priority3 => 3,
        Priority::Priority4 => 4,
        Priority::Priority5 => 5,
        Priority::Priority6 => 6,
        Priority::Priority7 => 7,
    }
}

/// The priority whose 3-bit value is `b`.
pub open spec fn priority_of_bits(b: u32) -> Priority {
    if b == 0 {
        Priority::Priority0
    } else if b == 1 {
        Priority::Priority1
    } else if b == 2 {
        Priority::Priority2
    } else if b == 3 {
        Priority::Priority3
    } else if b == 4 {
        Priority::Priority4
    } else if b == 5 {
        Priority::Priority5
    } else if b == 6 {
        Priority::Priority6
    } else {
        Priority::Priority7
    }
}

/// A well-formed 29-bit identifier: the top 3 bits of the `u32` are zero.
pub open spec fn id_wf(v: u32) -> bool {
    v & 0xe000_0000 == 0
}

/// PDU format byte (PF), bits 16..24 of the identifier.
pub open spec fn spec_pf(v: u32) -> u32 {
    (v >> 16) & 0xff
}

/// Data page bit (DP), bit 24 of the identifier.
pub open spec fn spec_dp(v: u32) -> u32 {
    (v >> 24) & 1
}

/// PDU specific byte (PS), bits 8..16 of the identifier.
pub open spec fn spec_ps(v: u32) -> u32 {
    (v >> 8) & 0xff
}

/// The 3-bit priority field, bits 26..29 of the identifier.
pub open spec fn spec_priority(v: u32) -> u32 {
    (v >> 26) & 7
}

/// The source address, the low byte of the identifier.
pub open spec fn spec_source(v: u32) -> u8 {
    (v & 0xff) as u8
}

/// The parameter group number encoded in an identifier.
///
/// With PF at most 239 (PDU1) the PS byte is a destination address and no
/// part of the PGN; otherwise (PDU2) the PGN is extended by PS.
pub open spec fn spec_pgn(v: u32) -> u32 {
    if spec_pf(v) <= 239 {
        (spec_dp(v) << 16) | (spec_pf(v) << 8)
    } else {
        (spec_dp(v) << 16) | (spec_pf(v) << 8) | spec_ps(v)
    }
}

/// The destination address encoded in an identifier: the PS byte under PDU1,
/// the global address under PDU2.
pub open spec fn spec_destination(v: u32) -> u8 {
    if spec_pf(v) <= 239 {
        ((v >> 8) & 0xff) as u8
    } else {
        0xff
    }
}

/// The identifier built from a priority value, a PGN, a source and a
/// destination. Under PDU1 the destination lands in the PS byte; under PDU2
/// the low byte of the PGN does.
pub open spec fn spec_pack(prio: u32, pgn: u32, src: u8, dst: u8) -> u32 {
    if (pgn >> 8) & 0xff <= 239 {
        (src as u32) | ((dst as u32) << 8) | (pgn << 8) | (prio << 26)
    } else {
        (src as u32) | (pgn << 8) | (prio << 26)
    }
}

/// A 29-bit extended CAN identifier; the top 3 bits of the stored value are
/// zero.
#[derive(Copy, Clone, Debug)]
pub struct Id(u32);

impl View for Id {
    type V = u32;

    closed spec fn view(&self) -> u32 {
        self.0
    }
}

/// Packing an in-range tuple places every field at its own bits: each
/// accessor of the packed identifier gives the field back, with the
/// destination read as global for PDU2 PGNs.
pub proof fn lemma_id_new_round_trip(prio: u32, pgn: u32, src: u8, dst: u8)
    by (bit_vector)
    requires
        prio <= 7,
        pgn <= 0x1ffff,
        (pgn >> 8) & 0xff <= 239 ==> pgn & 0xff == 0,
    ensures
        id_wf(spec_pack(prio, pgn, src, dst)),
        spec_priority(spec_pack(prio, pgn, src, dst)) == prio,
        spec_source(spec_pack(prio, pgn, src, dst)) == src,
        spec_pgn(spec_pack(prio, pgn, src, dst)) == pgn,
        (pgn >> 8) & 0xff <= 239 ==> spec_destination(spec_pack(prio, pgn, src, dst)) == dst,
        (pgn >> 8) & 0xff > 239 ==> spec_destination(spec_pack(prio, pgn, src, dst)) == 0xff,
{
}

/// Packing values in range keeps the top 3 bits of the identifier zero.
pub proof fn lemma_pack_wf(prio: u32, pgn: u32, src: u8, dst: u8)
    by (bit_vector)
    requires
        prio <= 7,
        pgn <= 0x1ffff,
    ensures
        id_wf(spec_pack(prio, pgn, src, dst)),
{
}

impl Id {
    /// Packs a priority, PGN, source and destination into an identifier.
    ///
    /// Fails exactly when the PGN is PDU2 but the destination is not the
    /// global address.
    pub fn new(prio: Priority, pgn: u32, src: u8, dst: u8) -> (r: Result<Id, IdError>)
        requires
            pgn <= 0x1ffff,
        ensures
            match r {
                Ok(id) => {
                    &&& (pgn >> 8) & 0xff <= 239 || dst == GLOBAL_ADDRESS
                    &&& id@ == spec_pack(priority_bits(prio), pgn, src, dst)
                    &&& id_wf(id@)
                },
                Err(e) => {
                    &&& (pgn >> 8) & 0xff > 239
                    &&& dst != GLOBAL_ADDRESS
                    &&& e == IdError::CanNotSendToDestination
                },
            },
    {
        let s: u32 = src as u32;
        let pf: u32 = (pgn >> 8) & 0xff;
        let pb: u32 = match prio {
            Priority::Priority0 => 0,
            Priority::Priority1 => 1,
            Priority::Priority2 => 2,
            Priority::Priority3 => 3,
            Priority::Priority4 => 4,
            Priority::Priority5 => 5,
            Priority::Priority6 => 6,
            Priority::Priority7 => 7,
        };
        let v: u32 = if pf <= 239 {
            s | ((dst as u32) << 8) | (pgn << 8) | (pb << 26)
        } else {
            if dst != GLOBAL_ADDRESS {
                return Err(IdError::CanNotSendToDestination);
            }
            s | (pgn << 8) | (pb << 26)
        };
        proof {
            lemma_pack_wf(pb, pgn, src, dst);
        }
        Ok(Id(v))
    }

    /// The priority field of the identifier.
    pub fn priority(&self) -> (r: Priority)
        ensures
            r == priority_of_bits(spec_priority(self@)),
            priority_bits(r) == spec_priority(self@),
    {
        let raw: u32 = self.0;
        proof {
            assert((raw >> 26) & 7 <= 7) by (bit_vector);
        }
        let p: u32 = (raw >> 26) & 7;
        match p {
            0 => Priority::Priority0,
            1 => Priority::Priority1,
            2 => Priority::Priority2,
            3 => Priority::Priority3,
            4 => Priority::Priority4,
            5 => Priority::Priority5,
            6 => Priority::Priority6,
            7 => Priority::Priority7,
            _ => vstd::pervasive::unreached(),
        }
    }

    /// The PGN encoded in the identifier, per the PDU1/PDU2 split.
    pub fn pgn(&self) -> (r: u32)
        ensures
            r == spec_pgn(self@),
    {
        let pf: u32 = (self.0 >> 16) & 0xff;
        let dp: u32 = (self.0 >> 24) & 1;
        if pf <= 239 {
            // PDU1 format, the PS byte holds the destination address
            (dp << 16) | (pf << 8)
        } else {
            // PDU2 format, the PGN is extended by the PS byte
            let ps: u32 = (self.0 >> 8) & 0xff;
            (dp << 16) | (pf << 8) | ps
        }
    }

    /// The source address, the low byte of the identifier.
    pub fn source(&self) -> (r: u8)
        ensures
            r == spec_source(self@),
    {
        (self.0 & 0xff) as u8
    }

    /// The destination address: the PS byte under PDU1, global under PDU2.
    pub fn destination(&self) -> (r: u8)
        ensures
            r == spec_destination(self@),
    {
        let pf: u32 = (self.0 >> 16) & 0xff;
        if pf <= 239 {
            ((self.0 >> 8) & 0xff) as u8
        } else {
            0xff
        }
    }

    /// The raw 29-bit value.
    pub fn value(&self) -> (r: u32)
        ensures
            r == self@,
    {
        self.0
    }

    /// Accepts exactly the values whose top 3 bits are zero and wraps them
    /// unchanged, so that `value` gives the argument back.
    pub fn try_from(value: u32) -> (r: Result<Id, IdError>)
        ensures
            match r {
                Ok(id) => id_wf(value) && id@ == value,
                Err(e) => !id_wf(value) && e == IdError::InvalidId,
            },
    {
        match validate_id(&value) {
            Ok(()) => Ok(Id(value)),
            Err(e) => Err(e),
        }
    }
}

/// Accepts exactly the well-formed 29-bit identifier values.
pub fn validate_id(id: &u32) -> (r: Result<(), IdError>)
    ensures
        match r {
            Ok(()) => id_wf(*id),
            Err(e) => !id_wf(*id) && e == IdError::InvalidId,
        },
{
    if *id & 0xe000_0000 > 0 {
        return Err(IdError::InvalidId);
    }
    Ok(())
}

} // verus!

