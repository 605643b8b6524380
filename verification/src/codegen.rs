use vstd::prelude::*;

pub mod emit;
pub mod names;
pub mod numbers;
pub mod schema;

verus! {

/// Why generation stops: a selected PGN resolving to more than one
/// definition, a field of a kind the generator has no mapping for, an
/// integer field scaled like a float, or an enumeration value that is no
/// number.
#[derive(Debug)]
pub enum CodegenError {
    MultiplePgnDefinitions(u32),
    UnhandledN2kType(String),
    UnhandledBitLength(usize),
    FloatInteger,
    BadEnumValue(String),
}

/// One generated file: where it goes, relative to the output root, and what
/// it holds.
pub struct GeneratedFile {
    pub path: String,
    pub contents: String,
}

} // verus!
