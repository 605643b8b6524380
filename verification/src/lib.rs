use vstd::prelude::*;

pub mod bits;
pub mod bus;
pub mod codegen;
pub mod fast_packet;
pub mod frame;
pub mod hal;
pub mod id;
pub mod message;
pub mod name;
pub mod product;

pub use bus::{Bus, BusError};
pub use frame::CanFrame;
pub use id::{Id, IdError, Priority};
pub use message::Message;
pub use name::Name;
pub use product::Product;

verus! {

/// The broadcast ("global") destination address of NMEA 2000.
pub const GLOBAL_ADDRESS: u8 = 0xff;

/// The runtime error of generated decoders: a payload shorter than the
/// declared length, or a PGN the selected catalog does not know.
#[derive(Debug)]
pub enum N2kError {
    InvalidPayloadSize { pgn: u32, expected: usize, actual: usize },
    UnknownPgn(u32),
}

/// What the bus asks of a PGN catalog: which PGNs use the fast packet
/// convention, and how a typed message is built from a PGN and its payload
/// bytes. Implementations are pure decoders, so both answers are pinned by
/// the spec functions.
pub trait PgnRegistry {
    type Message;

    type Error;

    /// Whether a PGN uses the fast packet convention. Left unconstrained
    /// unless the implementation gives it meaning.
    open spec fn spec_is_fast_packet(pgn: u32) -> bool {
        vstd::pervasive::arbitrary()
    }

    /// The typed message a PGN and payload decode to, or the registry's
    /// own error. Left unconstrained unless the implementation gives it
    /// meaning.
    open spec fn spec_build_message(pgn: u32, data: Seq<u8>) -> Result<
        Self::Message,
        Self::Error,
    > {
        vstd::pervasive::arbitrary()
    }

    /// Whether a PGN uses the fast packet convention.
    fn is_fast_packet(pgn: u32) -> (r: bool)
        ensures
            r == Self::spec_is_fast_packet(pgn),
    ;

    /// Builds the typed message for a PGN from payload bytes.
    fn build_message(pgn: u32, data: &[u8]) -> (r: Result<Self::Message, Self::Error>)
        ensures
            r == Self::spec_build_message(pgn, data@),
    ;
}

} // verus!
