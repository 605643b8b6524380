use vstd::prelude::*;

use crate::codegen::names::str_eq;

verus! {

/// The parsed PGN catalog: its descriptive headers and the definitions.
pub struct PgnsFile {
    pub comment: String,
    pub creator_code: String,
    pub license: String,
    pub pgns: Pgns,
}

/// The list of PGN definitions of a catalog.
pub struct Pgns {
    pub pgn_infos: Vec<PgnInfo>,
}

/// One PGN definition: its number, identifier, declared byte length,
/// framing kind (`Fast`, `Single`, ...) and fields.
pub struct PgnInfo {
    pub pgn: u32,
    pub id: String,
    pub length: usize,
    pub xtype: String,
    pub fields: Fields,
}

/// The field list of a PGN definition.
pub struct Fields {
    pub fields: Vec<Field>,
}

impl Default for Fields {
    /// An empty field list, for definitions that declare none.
    fn default() -> (r: Fields)
        ensures
            r.fields@.len() == 0,
    {
        Fields { fields: Vec::new() }
    }
}

/// One field of a PGN definition. The resolution is carried as the decimal
/// text the scaling factor displays as ("0" where none was declared); the
/// generator only ever tests it against "0" and "1" and writes it into the
/// generated source.
pub struct Field {
    pub order: String,
    pub id: String,
    pub name: String,
    pub signed: bool,
    pub bit_length: usize,
    pub bit_offset: usize,
    pub n2k_type: String,
    pub resolution: String,
    pub enum_values: EnumValues,
}

/// The enumeration values of a lookup field.
pub struct EnumValues {
    pub enum_values: Vec<EnumPair>,
}

impl Default for EnumValues {
    /// An empty value list, for fields that declare none.
    fn default() -> (r: EnumValues)
        ensures
            r.enum_values@.len() == 0,
    {
        EnumValues { enum_values: Vec::new() }
    }
}

/// One enumeration value: its numeric text and its name.
pub struct EnumPair {
    pub value: String,
    pub name: String,
}

/// Whether a resolution text stands for a scaling factor other than none
/// (0) and one (1).
pub open spec fn spec_is_float(resolution: Seq<char>) -> bool {
    !(resolution.len() == 0 || resolution == "0"@ || resolution == "1"@)
}

impl Field {
    /// Whether the field carries a scaled number: its resolution is neither
    /// absent, zero nor one.
    pub fn is_float(&self) -> (r: bool)
        ensures
            r == spec_is_float(self.resolution@),
    {
        !(self.resolution.as_str().is_empty() || str_eq(self.resolution.as_str(), "0") || str_eq(
            self.resolution.as_str(),
            "1",
        ))
    }

    /// Whether the field carries ASCII text.
    pub fn is_string(&self) -> (r: bool)
        ensures
            r == (self.n2k_type@ == "ASCII text"@),
    {
        str_eq(self.n2k_type.as_str(), "ASCII text")
    }

    /// Whether the field carries a value of an enumeration.
    pub fn is_enum(&self) -> (r: bool)
        ensures
            r == (self.enum_values.enum_values@.len() > 0),
    {
        self.enum_values.enum_values.len() > 0
    }
}

} // verus!
