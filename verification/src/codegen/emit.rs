use vstd::prelude::*;

use vstd::string::StringExecFns;

use crate::codegen::names::{
    field_ident, snake_of, spec_field_ident, spec_type_ident, to_snake, type_ident, upper_camel_of,
};
use crate::codegen::numbers::{
    all_binary, all_decimal, dec_str, parse_binary, spec_all_binary, spec_all_decimal,
    spec_bin_value, spec_dec,
};
use crate::codegen::schema::{spec_is_float, EnumPair, Field, PgnInfo, PgnsFile};
use crate::codegen::names::to_upper_camel;
use crate::codegen::names::str_eq;
use crate::codegen::CodegenError;
use crate::codegen::GeneratedFile;

verus! {

/// The concatenation of text parts, in order.
pub open spec fn concat_texts(parts: Seq<Seq<char>>) -> Seq<char>
    decreases parts.len(),
{
    if parts.len() == 0 {
        Seq::empty()
    } else {
        concat_texts(parts.drop_last()) + parts.last()
    }
}

/// Appending one more part extends the concatenation by it.
pub proof fn lemma_concat_texts_step(parts: Seq<Seq<char>>, i: int)
    requires
        0 <= i < parts.len(),
    ensures
        concat_texts(parts.take(i + 1)) == concat_texts(parts.take(i)) + parts[i],
{
    assert(parts.take(i + 1).drop_last() =~= parts.take(i));
    assert(parts.take(i + 1).last() == parts[i]);
}

/// The indexes, in order, of the definitions of the catalog that carry the
/// given PGN number.
pub open spec fn spec_matching(infos: Seq<PgnInfo>, pgn: u32) -> Seq<int>
    decreases infos.len(),
{
    if infos.len() == 0 {
        Seq::empty()
    } else {
        let rest = spec_matching(infos.drop_last(), pgn);
        if infos.last().pgn == pgn {
            rest.push(infos.len() - 1)
        } else {
            rest
        }
    }
}

/// The indexes of the definitions that carry the given PGN number.
pub fn matching_indexes(file: &PgnsFile, pgn: u32) -> (r: Vec<usize>)
    ensures
        r@.map_values(|x: usize| x as int) == spec_matching(file.pgns.pgn_infos@, pgn),
{
    let infos = &file.pgns.pgn_infos;
    let mut r: Vec<usize> = Vec::new();
    let mut i: usize = 0;
    while i < infos.len()
        invariant
            i <= infos@.len(),
            r@.map_values(|x: usize| x as int) == spec_matching(infos@.take(i as int), pgn),
        decreases infos@.len() - i,
    {
        proof {
            assert(infos@.take(i + 1).drop_last() =~= infos@.take(i as int));
            assert(infos@.take(i + 1).last() == infos@[i as int]);
        }
        if infos[i].pgn == pgn {
            r.push(i);
            proof {
                assert(r@.map_values(|x: usize| x as int) =~= spec_matching(
                    infos@.take(i as int),
                    pgn,
                ).push(i as int));
            }
        }
        i += 1;
    }
    proof {
        assert(infos@.take(infos@.len() as int) =~= infos@);
    }
    r
}

/// Whether a bit width is carried as a raw byte slice rather than an
/// integer.
pub open spec fn spec_is_slice_width(n: usize) -> bool {
    n > 64 || n == 0
}

/// The unsigned carrier type of a bit width.
pub open spec fn spec_unsigned_type(n: usize) -> Seq<char> {
    if n > 64 || n == 0 {
        "&'a [u8]"@
    } else if n > 32 {
        "u64"@
    } else if n > 16 {
        "u32"@
    } else if n > 8 {
        "u16"@
    } else if n > 1 {
        "u8"@
    } else {
        "bool"@
    }
}

/// The unsigned carrier type of a bit width, and whether it is a byte
/// slice.
pub fn decode_unsigned_int_type_for_bit_length(bit_length: usize) -> (r: (String, bool))
    ensures
        r.0@ == spec_unsigned_type(bit_length),
        r.1 == spec_is_slice_width(bit_length),
{
    if bit_length > 64 || bit_length == 0 {
        (String::from_str("&'a [u8]"), true)
    } else if bit_length > 32 {
        (String::from_str("u64"), false)
    } else if bit_length > 16 {
        (String::from_str("u32"), false)
    } else if bit_length > 8 {
        (String::from_str("u16"), false)
    } else if bit_length > 1 {
        (String::from_str("u8"), false)
    } else {
        (String::from_str("bool"), false)
    }
}

/// The signed carrier type of a bit width below 65.
pub open spec fn spec_signed_type(n: usize) -> Seq<char> {
    if n > 32 {
        "i64"@
    } else if n > 16 {
        "i32"@
    } else if n > 8 {
        "i16"@
    } else if n > 1 {
        "i8"@
    } else {
        "bool"@
    }
}

/// The signed carrier type of a bit width.
pub fn decode_signed_int_type_for_bit_length(bit_length: usize) -> (r: String)
    ensures
        r@ == spec_signed_type(bit_length),
{
    if bit_length > 32 {
        String::from_str("i64")
    } else if bit_length > 16 {
        String::from_str("i32")
    } else if bit_length > 8 {
        String::from_str("i16")
    } else if bit_length > 1 {
        String::from_str("i8")
    } else {
        String::from_str("bool")
    }
}

/// The floating-point carrier type of a bit width: too wide stays a byte
/// slice.
pub open spec fn spec_float_type(n: usize) -> Seq<char> {
    if n < 33 {
        "f32"@
    } else {
        "&'a [u8]"@
    }
}

/// The floating-point carrier type of a bit width.
pub fn decode_float_type_for_bit_length(bit_length: usize) -> (r: String)
    ensures
        r@ == spec_float_type(bit_length),
{
    if bit_length < 33 {
        String::from_str("f32")
    } else {
        String::from_str("&'a [u8]")
    }
}

/// The type name of a lookup field's enumeration: the plain UpperCamelCase
/// of its identifier.
pub open spec fn spec_lookup_table_type(id: Seq<char>) -> Seq<char> {
    upper_camel_of(id)
}

/// The type name of a lookup field's enumeration.
pub fn lookup_table_type(field: &Field) -> (r: String)
    ensures
        r@ == spec_lookup_table_type(field.id@),
{
    to_upper_camel(field.id.as_str())
}


/// The catalog type names that emit only a raw accessor.
pub open spec fn spec_type_raw_only(t: Seq<char>) -> bool {
    ||| t == "Date"@
    ||| t == "Time"@
    ||| t == "ASCII or UNICODE string starting with length and control byte"@
    ||| t == "ASCII string starting with length byte"@
    ||| t == "String with start/stop byte"@
    ||| t == "Bitfield"@
}

/// The catalog type names (or shapes) that map to a carrier type.
pub open spec fn spec_type_known_some(f: Field) -> bool {
    ||| f.n2k_type@ == "Binary data"@
    ||| f.n2k_type@ == "Lookup table"@
    ||| f.n2k_type@ == "Manufacturer code"@
    ||| f.n2k_type@ == "ASCII text"@
    ||| f.n2k_type@ == "Latitude"@
    ||| f.n2k_type@ == "IEEE Float"@
    ||| f.n2k_type@ == "Longitude"@
    ||| f.n2k_type@ == "Temperature"@
    ||| f.n2k_type@ == "Pressure (hires)"@
    ||| f.n2k_type@ == "Temperature (hires)"@
    ||| f.n2k_type@ == "Decimal encoded number"@
    ||| f.n2k_type@.len() == 0
    ||| (f.n2k_type@ == "Integer"@ && !spec_is_float(f.resolution@))
}

/// A field kind the generator can handle, one way or the other.
pub open spec fn spec_type_ok(f: Field) -> bool {
    spec_type_known_some(f) || spec_type_raw_only(f.n2k_type@)
}

/// The carrier type a field maps to (nothing for the kinds that stay
/// raw), decided in the order the kind tests are made.
pub open spec fn spec_rust_type_opt(f: Field) -> Option<Seq<char>> {
    if f.n2k_type@ == "Binary data"@ || f.n2k_type@ == "Decimal encoded number"@ {
        Some(spec_unsigned_type(f.bit_length))
    } else if f.n2k_type@ == "Lookup table"@ {
        Some(spec_lookup_table_type(f.id@))
    } else if f.n2k_type@ == "Manufacturer code"@ {
        Some("u16"@)
    } else if f.n2k_type@ == "ASCII text"@ {
        Some("&'a str"@)
    } else if spec_type_raw_only(f.n2k_type@) {
        None
    } else if f.n2k_type@ == "Latitude"@ || f.n2k_type@ == "IEEE Float"@ || f.n2k_type@
        == "Longitude"@ || f.n2k_type@ == "Temperature"@ || f.n2k_type@ == "Pressure (hires)"@
        || f.n2k_type@ == "Temperature (hires)"@ {
        Some(spec_float_type(f.bit_length))
    } else if f.n2k_type@.len() == 0 {
        if spec_is_float(f.resolution@) {
            Some(spec_float_type(f.bit_length))
        } else {
            Some(spec_unsigned_type(f.bit_length))
        }
    } else {
        // "Integer", without a scaling factor
        Some(spec_unsigned_type(f.bit_length))
    }
}

impl Field {
    /// The carrier type of the field: a byte slice or nothing for the
    /// kinds that stay raw, an error for an unrecognized kind and for an
    /// integer scaled like a float.
    pub fn to_rust_type(&self) -> (r: Result<Option<String>, CodegenError>)
        ensures
            match r {
                Ok(Some(s)) => spec_type_ok(*self) && spec_rust_type_opt(*self) == Some(s@),
                Ok(None) => spec_type_ok(*self) && spec_rust_type_opt(*self) is None,
                Err(CodegenError::FloatInteger) => self.n2k_type@ == "Integer"@ && spec_is_float(
                    self.resolution@,
                ) && !spec_type_ok(*self),
                Err(CodegenError::UnhandledN2kType(t)) => t@ == self.n2k_type@ && !spec_type_ok(
                    *self,
                ),
                Err(_) => false,
            },
    {
        let t = self.n2k_type.as_str();
        if str_eq(t, "Binary data") || str_eq(t, "Decimal encoded number") {
            Ok(Some(decode_unsigned_int_type_for_bit_length(self.bit_length).0))
        } else if str_eq(t, "Lookup table") {
            Ok(Some(lookup_table_type(self)))
        } else if str_eq(t, "Manufacturer code") {
            Ok(Some(String::from_str("u16")))
        } else if str_eq(t, "ASCII text") {
            Ok(Some(String::from_str("&'a str")))
        } else if str_eq(t, "Date") || str_eq(t, "Time") || str_eq(
            t,
            "ASCII or UNICODE string starting with length and control byte",
        ) || str_eq(t, "ASCII string starting with length byte") || str_eq(
            t,
            "String with start/stop byte",
        ) || str_eq(t, "Bitfield") {
            Ok(None)
        } else if str_eq(t, "Latitude") || str_eq(t, "IEEE Float") || str_eq(t, "Longitude")
            || str_eq(t, "Temperature") || str_eq(t, "Pressure (hires)") || str_eq(
            t,
            "Temperature (hires)",
        ) {
            Ok(Some(decode_float_type_for_bit_length(self.bit_length)))
        } else if t.is_empty() {
            if self.is_float() {
                Ok(Some(decode_float_type_for_bit_length(self.bit_length)))
            } else {
                Ok(Some(decode_unsigned_int_type_for_bit_length(self.bit_length).0))
            }
        } else if str_eq(t, "Integer") {
            if !self.is_float() {
                Ok(Some(decode_unsigned_int_type_for_bit_length(self.bit_length).0))
            } else {
                Err(CodegenError::FloatInteger)
            }
        } else {
            Err(CodegenError::UnhandledN2kType(self.n2k_type.clone()))
        }
    }
}

/// The raw accessor of a field: a byte-slice view for the widths no
/// integer carries, a flag test for one bit, otherwise a read of the
/// declared bit range through the bit-field reader, reinterpreted for a
/// signed field.
pub open spec fn spec_raw_get_text(f: Field, fname_raw: Seq<char>) -> Seq<char> {
    let off = spec_dec(f.bit_offset as nat);
    let len = spec_dec(f.bit_length as nat);
    let uty = spec_unsigned_type(f.bit_length);
    let sty = spec_signed_type(f.bit_length);
    if spec_is_slice_width(f.bit_length) {
        let first = spec_dec((f.bit_offset / 8) as nat);
        let past = if f.bit_length == 0 {
            spec_dec((f.bit_offset / 8) as nat)
        } else {
            spec_dec(((f.bit_offset + f.bit_length + 7) / 8) as nat)
        };
        "    pub fn "@ + fname_raw + "<'a>(&'a self) -> &'a [u8] {\n        &self.raw["@ + first
            + ".."@ + past + "]\n    }\n\n"@
    } else if f.bit_length == 1 {
        "    pub fn "@ + fname_raw + "(&self) -> bool {\n        n2k::bits::load_be_bits(&self.raw, "@
            + off + ", 1) == 1\n    }\n\n"@
    } else if f.signed {
        "    pub fn "@ + fname_raw + "(&self) -> "@ + sty
            + " {\n        n2k::bits::load_be_bits(&self.raw, "@ + off + ", "@ + len + ") as "@
            + uty + " as "@ + sty + "\n    }\n\n"@
    } else {
        "    pub fn "@ + fname_raw + "(&self) -> "@ + uty
            + " {\n        n2k::bits::load_be_bits(&self.raw, "@ + off + ", "@ + len + ") as "@
            + uty + "\n    }\n\n"@
    }
}

/// The raw accessor of a field.
pub fn codegen_raw_get_impl(field: &Field, field_name_raw: &str) -> (r: String)
    requires
        field.bit_offset + field.bit_length + 7 <= usize::MAX,
    ensures
        r@ == spec_raw_get_text(*field, field_name_raw@),
{
    let (uty, is_slice) = decode_unsigned_int_type_for_bit_length(field.bit_length);
    let mut s = String::from_str("    pub fn ");
    s.append(field_name_raw);
    if is_slice {
        let first = dec_str((field.bit_offset / 8) as u64);
        let past = if field.bit_length == 0 {
            dec_str((field.bit_offset / 8) as u64)
        } else {
            dec_str(((field.bit_offset + field.bit_length + 7) / 8) as u64)
        };
        s.append("<'a>(&'a self) -> &'a [u8] {\n        &self.raw[");
        s.append(first.as_str());
        s.append("..");
        s.append(past.as_str());
        s.append("]\n    }\n\n");
    } else if field.bit_length == 1 {
        s.append("(&self) -> bool {\n        n2k::bits::load_be_bits(&self.raw, ");
        s.append(dec_str(field.bit_offset as u64).as_str());
        s.append(", 1) == 1\n    }\n\n");
    } else if field.signed {
        let sty = decode_signed_int_type_for_bit_length(field.bit_length);
        s.append("(&self) -> ");
        s.append(sty.as_str());
        s.append(" {\n        n2k::bits::load_be_bits(&self.raw, ");
        s.append(dec_str(field.bit_offset as u64).as_str());
        s.append(", ");
        s.append(dec_str(field.bit_length as u64).as_str());
        s.append(") as ");
        s.append(uty.as_str());
        s.append(" as ");
        s.append(sty.as_str());
        s.append("\n    }\n\n");
    } else {
        s.append("(&self) -> ");
        s.append(uty.as_str());
        s.append(" {\n        n2k::bits::load_be_bits(&self.raw, ");
        s.append(dec_str(field.bit_offset as u64).as_str());
        s.append(", ");
        s.append(dec_str(field.bit_length as u64).as_str());
        s.append(") as ");
        s.append(uty.as_str());
        s.append("\n    }\n\n");
    }
    s
}

/// The interpreted accessor a field gets next to the raw one, if any: a
/// UTF-8 view of the raw bytes for text, the enumeration of the raw value
/// for a lookup, the scaled raw value for a resolution.
pub open spec fn spec_get_entry(f: Field, fname: Seq<char>, fname_raw: Seq<char>) -> Option<
    Seq<char>,
> {
    match spec_rust_type_opt(f) {
        None => None,
        Some(rt) => {
            if f.n2k_type@ == "ASCII text"@ {
                Some(
                    "    pub fn "@ + fname
                        + "<'a>(&'a self) -> Result<&'a str, core::str::Utf8Error> {\n        core::str::from_utf8(self."@
                        + fname_raw + "())\n    }\n\n"@,
                )
            } else if f.enum_values.enum_values@.len() > 0 {
                Some(
                    "    pub fn "@ + fname + "(&self) -> "@ + rt + " {\n        self."@
                        + fname_raw + "().into()\n    }\n\n"@,
                )
            } else if spec_is_float(f.resolution@) {
                Some(
                    "    pub fn "@ + fname + "(&self) -> "@ + rt + " {\n        (self."@
                        + fname_raw + "() as "@ + rt + ") * ("@ + f.resolution@ + " as "@ + rt
                        + ")\n    }\n\n"@,
                )
            } else {
                None
            }
        },
    }
}

/// The interpreted accessor of a field, where it has one.
pub fn codegen_get_impl(field: &Field, field_name_raw: &str, field_name: &str) -> (r: Result<
    Option<String>,
    CodegenError,
>)
    ensures
        match r {
            Ok(Some(s)) => spec_type_ok(*field) && spec_get_entry(
                *field,
                field_name@,
                field_name_raw@,
            ) == Some(s@),
            Ok(None) => spec_type_ok(*field) && spec_get_entry(
                *field,
                field_name@,
                field_name_raw@,
            ) is None,
            Err(CodegenError::FloatInteger) => field.n2k_type@ == "Integer"@ && spec_is_float(
                field.resolution@,
            ) && !spec_type_ok(*field),
            Err(CodegenError::UnhandledN2kType(t)) => t@ == field.n2k_type@ && !spec_type_ok(
                *field,
            ),
            Err(_) => false,
        },
{
    let rust_type = match field.to_rust_type() {
        Ok(rt) => rt,
        Err(e) => {
            return Err(e);
        },
    };
    let rust_type = match rust_type {
        Some(t) => t,
        None => {
            return Ok(None);
        },
    };
    if field.is_string() {
        let mut s = String::from_str("    pub fn ");
        s.append(field_name);
        s.append(
            "<'a>(&'a self) -> Result<&'a str, core::str::Utf8Error> {\n        core::str::from_utf8(self.",
        );
        s.append(field_name_raw);
        s.append("())\n    }\n\n");
        Ok(Some(s))
    } else if field.is_enum() {
        let mut s = String::from_str("    pub fn ");
        s.append(field_name);
        s.append("(&self) -> ");
        s.append(rust_type.as_str());
        s.append(" {\n        self.");
        s.append(field_name_raw);
        s.append("().into()\n    }\n\n");
        Ok(Some(s))
    } else if field.is_float() {
        let mut s = String::from_str("    pub fn ");
        s.append(field_name);
        s.append("(&self) -> ");
        s.append(rust_type.as_str());
        s.append(" {\n        (self.");
        s.append(field_name_raw);
        s.append("() as ");
        s.append(rust_type.as_str());
        s.append(") * (");
        s.append(field.resolution.as_str());
        s.append(" as ");
        s.append(rust_type.as_str());
        s.append(")\n    }\n\n");
        Ok(Some(s))
    } else {
        Ok(None)
    }
}


/// Every field's declared bit range stays within the machine's reach.
pub open spec fn spec_fields_bounded(fields: Seq<Field>) -> bool {
    forall|i: int|
        0 <= i < fields.len() ==> (#[trigger] fields[i]).bit_offset + fields[i].bit_length + 7
            <= usize::MAX
}

/// Every field the generator must interpret (the reserved ones stay out)
/// is of a kind it can handle.
pub open spec fn spec_fields_ok(fields: Seq<Field>) -> bool {
    forall|i: int|
        0 <= i < fields.len() && (#[trigger] fields[i]).id@ != "reserved"@ ==> spec_type_ok(
            fields[i],
        )
}

/// The accessors one field contributes: its raw accessor, then its
/// interpreted accessor where it has one.
pub open spec fn spec_getter_entry(f: Field) -> Seq<char> {
    let fname = spec_field_ident(f.id@);
    let fname_raw = fname + "_raw"@;
    spec_raw_get_text(f, fname_raw) + (match spec_get_entry(f, fname, fname_raw) {
        Some(t) => t,
        None => Seq::<char>::empty(),
    })
}

/// The name a field shows in the generated Debug rendering: the
/// interpreted accessor where it has one, else the raw one.
pub open spec fn spec_debug_name(f: Field) -> Seq<char> {
    let fname = spec_field_ident(f.id@);
    match spec_get_entry(f, fname, fname + "_raw"@) {
        Some(_) => fname,
        None => fname + "_raw"@,
    }
}

/// The accessors of all fields in order, the reserved ones skipped.
pub open spec fn spec_getters_text(fields: Seq<Field>) -> Seq<char>
    decreases fields.len(),
{
    if fields.len() == 0 {
        Seq::empty()
    } else {
        spec_getters_text(fields.drop_last()) + (if fields.last().id@ == "reserved"@ {
            Seq::<char>::empty()
        } else {
            spec_getter_entry(fields.last())
        })
    }
}

/// The Debug names of all fields in order, the reserved ones skipped.
pub open spec fn spec_debug_names(fields: Seq<Field>) -> Seq<Seq<char>>
    decreases fields.len(),
{
    if fields.len() == 0 {
        Seq::empty()
    } else {
        let rest = spec_debug_names(fields.drop_last());
        if fields.last().id@ == "reserved"@ {
            rest
        } else {
            rest.push(spec_debug_name(fields.last()))
        }
    }
}

/// The accessors of a definition's fields, and the names its Debug
/// rendering walks.
pub fn codegen_getters(pgninfo: &PgnInfo) -> (r: Result<(String, Vec<String>), CodegenError>)
    requires
        spec_fields_bounded(pgninfo.fields.fields@),
    ensures
        match r {
            Ok(p) => {
                &&& spec_fields_ok(pgninfo.fields.fields@)
                &&& p.0@ == spec_getters_text(pgninfo.fields.fields@)
                &&& p.1@.map_values(|n: String| n@) == spec_debug_names(pgninfo.fields.fields@)
            },
            Err(e) => !spec_fields_ok(pgninfo.fields.fields@) && (e
                matches CodegenError::FloatInteger || e matches CodegenError::UnhandledN2kType(
                _,
            )),
        },
{
    let fields = &pgninfo.fields.fields;
    let mut text = String::new();
    let mut names: Vec<String> = Vec::new();
    let mut i: usize = 0;
    while i < fields.len()
        invariant
            i <= fields@.len(),
            fields@ == pgninfo.fields.fields@,
            spec_fields_bounded(fields@),
            text@ == spec_getters_text(fields@.take(i as int)),
            names@.map_values(|n: String| n@) == spec_debug_names(fields@.take(i as int)),
            forall|j: int|
                0 <= j < i && (#[trigger] fields@[j]).id@ != "reserved"@ ==> spec_type_ok(
                    fields@[j],
                ),
        decreases fields@.len() - i,
    {
        proof {
            assert(fields@.take(i + 1).drop_last() =~= fields@.take(i as int));
            assert(fields@.take(i + 1).last() == fields@[i as int]);
        }
        let field = &fields[i];
        if !str_eq(field.id.as_str(), "reserved") {
            let fname = field_ident(field.id.as_str());
            let mut fname_raw = fname.clone();
            fname_raw.append("_raw");
            text.append(codegen_raw_get_impl(field, fname_raw.as_str()).as_str());
            match codegen_get_impl(field, fname_raw.as_str(), fname.as_str()) {
                Ok(Some(get)) => {
                    text.append(get.as_str());
                    names.push(fname);
                },
                Ok(None) => {
                    names.push(fname_raw);
                },
                Err(e) => {
                    proof {
                        assert(e matches CodegenError::FloatInteger || e
                            matches CodegenError::UnhandledN2kType(_));
                        assert(!spec_type_ok(fields@[i as int]));
                        assert(!spec_fields_ok(fields@));
                    }
                    return Err(e);
                },
            }
            proof {
                assert(names@.map_values(|n: String| n@) =~= spec_debug_names(
                    fields@.take(i + 1),
                ));
            }
        }
        i += 1;
    }
    proof {
        assert(fields@.take(fields@.len() as int) =~= fields@);
    }
    Ok((text, names))
}

/// The line one field contributes to the generated Debug rendering.
pub open spec fn spec_debug_line(n: Seq<char>) -> Seq<char> {
    "            .field(\""@ + n + "\", &self."@ + n + "())\n"@
}

/// The accessor impl of a definition, and its Debug impl walking every
/// generated accessor.
pub open spec fn spec_impl_text(info: PgnInfo) -> Seq<char> {
    let tname = spec_type_ident(info.id@);
    "impl "@ + tname + " {\n"@ + spec_getters_text(info.fields.fields@) + "}\n\nimpl core::fmt::Debug for "@
        + tname
        + " {\n    fn fmt(&self, f: &mut core::fmt::Formatter<'_>) -> core::fmt::Result {\n        f.debug_struct(\""@
        + tname + "\")\n"@ + concat_texts(
        spec_debug_names(info.fields.fields@).map_values(|n: Seq<char>| spec_debug_line(n)),
    ) + "            .finish()\n    }\n}\n"@
}

/// The accessor impl and Debug impl of a definition.
pub fn codegen_impl(pgninfo: &PgnInfo) -> (r: Result<String, CodegenError>)
    requires
        spec_fields_bounded(pgninfo.fields.fields@),
    ensures
        match r {
            Ok(s) => spec_fields_ok(pgninfo.fields.fields@) && s@ == spec_impl_text(*pgninfo),
            Err(CodegenError::FloatInteger) => !spec_fields_ok(pgninfo.fields.fields@),
            Err(CodegenError::UnhandledN2kType(_)) => !spec_fields_ok(pgninfo.fields.fields@),
            Err(_) => false,
        },
{
    let (getters, names) = match codegen_getters(pgninfo) {
        Ok(p) => p,
        Err(e) => {
            return Err(e);
        },
    };
    let tname = type_ident(pgninfo.id.as_str());
    let mut s = String::from_str("impl ");
    s.append(tname.as_str());
    s.append(" {\n");
    s.append(getters.as_str());
    s.append("}\n\nimpl core::fmt::Debug for ");
    s.append(tname.as_str());
    s.append(
        " {\n    fn fmt(&self, f: &mut core::fmt::Formatter<'_>) -> core::fmt::Result {\n        f.debug_struct(\"",
    );
    s.append(tname.as_str());
    s.append("\")\n");
    let ghost dbg_lines: Seq<Seq<char>> = spec_debug_names(pgninfo.fields.fields@).map_values(
        |n: Seq<char>| spec_debug_line(n),
    );
    let mut i: usize = 0;
    while i < names.len()
        invariant
            i <= names@.len(),
            names@.map_values(|n: String| n@) == spec_debug_names(pgninfo.fields.fields@),
            dbg_lines == spec_debug_names(pgninfo.fields.fields@).map_values(
                |n: Seq<char>| spec_debug_line(n),
            ),
            s@ == "impl "@ + spec_type_ident(pgninfo.id@) + " {\n"@ + spec_getters_text(
                pgninfo.fields.fields@,
            ) + "}\n\nimpl core::fmt::Debug for "@ + spec_type_ident(pgninfo.id@)
                + " {\n    fn fmt(&self, f: &mut core::fmt::Formatter<'_>) -> core::fmt::Result {\n        f.debug_struct(\""@
                + spec_type_ident(pgninfo.id@) + "\")\n"@ + concat_texts(
                dbg_lines.take(i as int),
            ),
        decreases names@.len() - i,
    {
        proof {
            lemma_concat_texts_step(dbg_lines, i as int);
        }
        s.append("            .field(\"");
        s.append(names[i].as_str());
        s.append("\", &self.");
        s.append(names[i].as_str());
        s.append("())\n");
        i += 1;
    }
    proof {
        assert(dbg_lines.take(dbg_lines.len() as int) =~= dbg_lines);
    }
    s.append("            .finish()\n    }\n}\n");
    Ok(s)
}


/// Whether the catalog encodes an enumeration's values in binary: every
/// value of every pair consists of binary digits alone.
pub open spec fn spec_values_binary(pairs: Seq<EnumPair>) -> bool {
    forall|i: int| 0 <= i < pairs.len() ==> spec_all_binary((#[trigger] pairs[i]).value@)
}

/// The text an enumeration value is emitted as: the decimal rendering of
/// its binary reading, or its decimal text unchanged.
pub open spec fn spec_enum_value_text(v: Seq<char>, binary: bool) -> Seq<char> {
    if binary {
        spec_dec(spec_bin_value(v))
    } else {
        v
    }
}

/// Every enumeration value is a non-empty numeral the generator can emit.
pub open spec fn spec_enum_values_ok(pairs: Seq<EnumPair>, binary: bool) -> bool {
    forall|i: int|
        0 <= i < pairs.len() ==> (#[trigger] pairs[i]).value@.len() > 0 && (binary
            ==> spec_bin_value(pairs[i].value@) <= u64::MAX) && (!binary ==> spec_all_decimal(
            pairs[i].value@,
        ))
}

/// The declaration line of one enumeration variant.
pub open spec fn spec_variant_line(name: Seq<char>) -> Seq<char> {
    "    "@ + spec_type_ident(name) + ",\n"@
}

/// The match arm of one enumeration value.
pub open spec fn spec_arm_line(p: EnumPair, binary: bool) -> Seq<char> {
    "            "@ + spec_enum_value_text(p.value@, binary) + " => Self::"@ + spec_type_ident(
        p.name@,
    ) + ",\n"@
}

/// The enumeration of a lookup field: a variant per catalog value, an
/// `Other` catch-all, and the conversion from the raw integer.
pub open spec fn spec_enum_text(f: Field) -> Seq<char> {
    let ety = spec_lookup_table_type(f.id@);
    let ity = spec_unsigned_type(f.bit_length);
    let pairs = f.enum_values.enum_values@;
    let binary = spec_values_binary(pairs);
    "#[derive(Debug)]\npub enum "@ + ety + " {\n"@ + concat_texts(
        pairs.map_values(|p: EnumPair| spec_variant_line(p.name@)),
    ) + "    Other("@ + ity + "),\n}\n\nimpl core::convert::From<"@ + ity + "> for "@ + ety
        + " {\n    fn from(value: "@ + ity + ") -> Self {\n        match value {\n"@
        + concat_texts(pairs.map_values(|p: EnumPair| spec_arm_line(p, binary)))
        + "            v => Self::Other(v),\n        }\n    }\n}\n\n"@
}

/// The enumeration type of a lookup field, with the conversion from its
/// raw integer.
pub fn codegen_enum(field: &Field) -> (r: Result<String, CodegenError>)
    ensures
        match r {
            Ok(s) => spec_enum_values_ok(
                field.enum_values.enum_values@,
                spec_values_binary(field.enum_values.enum_values@),
            ) && s@ == spec_enum_text(*field),
            Err(e) => !spec_enum_values_ok(
                field.enum_values.enum_values@,
                spec_values_binary(field.enum_values.enum_values@),
            ) && e matches CodegenError::BadEnumValue(_),
        },
{
    let pairs = &field.enum_values.enum_values;
    // The catalog writes some enumerations in binary, others in decimal;
    // read them as binary when every value looks binary.
    let mut is_binary = true;
    let mut i: usize = 0;
    while i < pairs.len()
        invariant
            i <= pairs@.len(),
            is_binary == forall|j: int|
                0 <= j < i ==> spec_all_binary((#[trigger] pairs@[j]).value@),
        decreases pairs@.len() - i,
    {
        if !all_binary(pairs[i].value.as_str()) {
            is_binary = false;
        }
        i += 1;
    }
    proof {
        assert(is_binary == spec_values_binary(pairs@));
    }
    let ety = lookup_table_type(field);
    let (ity, _) = decode_unsigned_int_type_for_bit_length(field.bit_length);
    let mut s = String::from_str("#[derive(Debug)]\npub enum ");
    s.append(ety.as_str());
    s.append(" {\n");
    let ghost variant_lines: Seq<Seq<char>> = pairs@.map_values(
        |p: EnumPair| spec_variant_line(p.name@),
    );
    let mut i: usize = 0;
    while i < pairs.len()
        invariant
            i <= pairs@.len(),
            pairs@ == field.enum_values.enum_values@,
            variant_lines == pairs@.map_values(|p: EnumPair| spec_variant_line(p.name@)),
            s@ == "#[derive(Debug)]\npub enum "@ + spec_lookup_table_type(field.id@) + " {\n"@
                + concat_texts(variant_lines.take(i as int)),
        decreases pairs@.len() - i,
    {
        proof {
            lemma_concat_texts_step(variant_lines, i as int);
        }
        s.append("    ");
        s.append(type_ident(pairs[i].name.as_str()).as_str());
        s.append(",\n");
        i += 1;
    }
    proof {
        assert(variant_lines.take(variant_lines.len() as int) =~= variant_lines);
    }
    s.append("    Other(");
    s.append(ity.as_str());
    s.append("),\n}\n\nimpl core::convert::From<");
    s.append(ity.as_str());
    s.append("> for ");
    s.append(ety.as_str());
    s.append(" {\n    fn from(value: ");
    s.append(ity.as_str());
    s.append(") -> Self {\n        match value {\n");
    let ghost arm_lines: Seq<Seq<char>> = pairs@.map_values(
        |p: EnumPair| spec_arm_line(p, spec_values_binary(pairs@)),
    );
    let ghost mid: Seq<char> = s@;
    let mut i: usize = 0;
    while i < pairs.len()
        invariant
            i <= pairs@.len(),
            pairs@ == field.enum_values.enum_values@,
            is_binary == spec_values_binary(pairs@),
            arm_lines == pairs@.map_values(|p: EnumPair| spec_arm_line(p, is_binary)),
            s@ == mid + concat_texts(arm_lines.take(i as int)),
            forall|j: int|
                0 <= j < i ==> (#[trigger] pairs@[j]).value@.len() > 0 && (is_binary
                    ==> spec_bin_value(pairs@[j].value@) <= u64::MAX) && (!is_binary
                    ==> spec_all_decimal(pairs@[j].value@)),
        decreases pairs@.len() - i,
    {
        proof {
            lemma_concat_texts_step(arm_lines, i as int);
        }
        let value = &pairs[i].value;
        if value.as_str().is_empty() {
            return Err(CodegenError::BadEnumValue(value.clone()));
        }
        let value_text: String = if is_binary {
            match parse_binary(value.as_str()) {
                Some(v) => dec_str(v),
                None => {
                    return Err(CodegenError::BadEnumValue(value.clone()));
                },
            }
        } else {
            if !all_decimal(value.as_str()) {
                return Err(CodegenError::BadEnumValue(value.clone()));
            }
            value.clone()
        };
        s.append("            ");
        s.append(value_text.as_str());
        s.append(" => Self::");
        s.append(type_ident(pairs[i].name.as_str()).as_str());
        s.append(",\n");
        i += 1;
    }
    proof {
        assert(arm_lines.take(arm_lines.len() as int) =~= arm_lines);
    }
    s.append("            v => Self::Other(v),\n        }\n    }\n}\n\n");
    Ok(s)
}


/// The enumerations of every lookup field of a definition, in field order.
pub open spec fn spec_enums_text(fields: Seq<Field>) -> Seq<char>
    decreases fields.len(),
{
    if fields.len() == 0 {
        Seq::empty()
    } else {
        spec_enums_text(fields.drop_last()) + (if fields.last().enum_values.enum_values@.len()
            > 0 {
            spec_enum_text(fields.last())
        } else {
            Seq::<char>::empty()
        })
    }
}

/// Every lookup field of the list carries values the generator can emit.
pub open spec fn spec_enums_ok(fields: Seq<Field>) -> bool {
    forall|i: int|
        0 <= i < fields.len() && (#[trigger] fields[i]).enum_values.enum_values@.len() > 0
            ==> spec_enum_values_ok(
            fields[i].enum_values.enum_values@,
            spec_values_binary(fields[i].enum_values.enum_values@),
        )
}

/// The module of one PGN: the raw-buffer struct sized to the declared
/// length, the checked construction from a byte slice, the enumerations of
/// its lookup fields, and the accessor and Debug impls.
pub open spec fn spec_pgn_module_text(info: PgnInfo) -> Seq<char> {
    let tname = spec_type_ident(info.id@);
    let size = spec_dec(info.length as nat);
    let pgn = spec_dec(info.pgn as nat);
    "use crate::types::N2kError;\n\npub struct "@ + tname + " {\n    raw: [u8; "@ + size
        + "],\n}\n\nimpl core::convert::TryFrom<&[u8]> for "@ + tname
        + " {\n    type Error = N2kError;\n\n    fn try_from(payload: &[u8]) -> Result<Self, Self::Error> {\n        if payload.len() < "@
        + size + " {\n            return Err(N2kError::InvalidPayloadSize { expected: "@ + size
        + ", actual: payload.len(), pgn: "@ + pgn
        + " });\n        }\n        let mut raw = [0u8; "@ + size
        + "];\n        raw.copy_from_slice(&payload[.."@ + size
        + "]);\n        Ok(Self { raw })\n    }\n}\n\n"@ + spec_enums_text(
        info.fields.fields@,
    ) + spec_impl_text(info)
}

/// The module of one PGN definition.
pub fn codegen_pgn(pgninfo: &PgnInfo) -> (r: Result<String, CodegenError>)
    requires
        spec_fields_bounded(pgninfo.fields.fields@),
    ensures
        match r {
            Ok(s) => {
                &&& spec_fields_ok(pgninfo.fields.fields@)
                &&& spec_enums_ok(pgninfo.fields.fields@)
                &&& s@ == spec_pgn_module_text(*pgninfo)
            },
            Err(e) => !(spec_fields_ok(pgninfo.fields.fields@) && spec_enums_ok(
                pgninfo.fields.fields@,
            )) && (e matches CodegenError::FloatInteger || e
                matches CodegenError::UnhandledN2kType(_) || e
                matches CodegenError::BadEnumValue(_)),
        },
{
    let tname = type_ident(pgninfo.id.as_str());
    let size = dec_str(pgninfo.length as u64);
    let pgn = dec_str(pgninfo.pgn as u64);
    let mut s = String::from_str("use crate::types::N2kError;\n\npub struct ");
    s.append(tname.as_str());
    s.append(" {\n    raw: [u8; ");
    s.append(size.as_str());
    s.append("],\n}\n\nimpl core::convert::TryFrom<&[u8]> for ");
    s.append(tname.as_str());
    s.append(
        " {\n    type Error = N2kError;\n\n    fn try_from(payload: &[u8]) -> Result<Self, Self::Error> {\n        if payload.len() < ",
    );
    s.append(size.as_str());
    s.append(" {\n            return Err(N2kError::InvalidPayloadSize { expected: ");
    s.append(size.as_str());
    s.append(", actual: payload.len(), pgn: ");
    s.append(pgn.as_str());
    s.append(" });\n        }\n        let mut raw = [0u8; ");
    s.append(size.as_str());
    s.append("];\n        raw.copy_from_slice(&payload[..");
    s.append(size.as_str());
    s.append("]);\n        Ok(Self { raw })\n    }\n}\n\n");
    let ghost head: Seq<char> = s@;
    let fields = &pgninfo.fields.fields;
    let mut i: usize = 0;
    while i < fields.len()
        invariant
            i <= fields@.len(),
            fields@ == pgninfo.fields.fields@,
            s@ == head + spec_enums_text(fields@.take(i as int)),
            forall|j: int|
                0 <= j < i && (#[trigger] fields@[j]).enum_values.enum_values@.len() > 0
                    ==> spec_enum_values_ok(
                    fields@[j].enum_values.enum_values@,
                    spec_values_binary(fields@[j].enum_values.enum_values@),
                ),
        decreases fields@.len() - i,
    {
        proof {
            assert(fields@.take(i + 1).drop_last() =~= fields@.take(i as int));
            assert(fields@.take(i + 1).last() == fields@[i as int]);
        }
        let field = &fields[i];
        if field.enum_values.enum_values.len() > 0 {
            match codegen_enum(field) {
                Ok(e) => {
                    s.append(e.as_str());
                },
                Err(e) => {
                    proof {
                        assert(!spec_enums_ok(fields@));
                    }
                    return Err(e);
                },
            }
        }
        i += 1;
    }
    proof {
        assert(fields@.take(fields@.len() as int) =~= fields@);
    }
    match codegen_impl(pgninfo) {
        Ok(impl_text) => {
            s.append(impl_text.as_str());
            Ok(s)
        },
        Err(e) => Err(e),
    }
}


/// No selected PGN resolves to more than one definition.
pub open spec fn spec_unique_defs(infos: Seq<PgnInfo>, pgns: Seq<u32>) -> bool {
    forall|i: int| 0 <= i < pgns.len() ==> spec_matching(infos, #[trigger] pgns[i]).len() <= 1
}

/// The indexes of the definitions the selection resolves to, in selection
/// order; a selected number the catalog lacks is passed over.
pub open spec fn spec_selected_idx(infos: Seq<PgnInfo>, pgns: Seq<u32>) -> Seq<int>
    decreases pgns.len(),
{
    if pgns.len() == 0 {
        Seq::empty()
    } else {
        let rest = spec_selected_idx(infos, pgns.drop_last());
        let m = spec_matching(infos, pgns.last());
        if m.len() > 0 {
            rest.push(m[0])
        } else {
            rest
        }
    }
}

/// Every index of the match list points into the catalog.
pub proof fn lemma_matching_in_range(infos: Seq<PgnInfo>, pgn: u32)
    ensures
        forall|k: int|
            0 <= k < spec_matching(infos, pgn).len() ==> 0 <= #[trigger] spec_matching(
                infos,
                pgn,
            )[k] < infos.len() && infos[spec_matching(infos, pgn)[k]].pgn == pgn,
    decreases infos.len(),
{
    if infos.len() > 0 {
        lemma_matching_in_range(infos.drop_last(), pgn);
        assert(forall|k: int|
            0 <= k < spec_matching(infos.drop_last(), pgn).len() ==> infos.drop_last()[
                #[trigger] spec_matching(infos.drop_last(), pgn)[k]
            ] == infos[spec_matching(infos.drop_last(), pgn)[k]]);
    }
}

/// Resolves the selection to definition indexes: a selected number with
/// several definitions stops the generator.
pub fn select_infos(file: &PgnsFile, pgns: &Vec<u32>) -> (r: Result<Vec<usize>, CodegenError>)
    ensures
        match r {
            Ok(idxs) => {
                &&& spec_unique_defs(file.pgns.pgn_infos@, pgns@)
                &&& idxs@.map_values(|x: usize| x as int) == spec_selected_idx(
                    file.pgns.pgn_infos@,
                    pgns@,
                )
                &&& forall|k: int| 0 <= k < idxs@.len() ==> (#[trigger] idxs@[k]) < file.pgns.pgn_infos@.len()
            },
            Err(e) => !spec_unique_defs(file.pgns.pgn_infos@, pgns@) && e
                matches CodegenError::MultiplePgnDefinitions(_),
        },
{
    let mut idxs: Vec<usize> = Vec::new();
    let mut i: usize = 0;
    while i < pgns.len()
        invariant
            i <= pgns@.len(),
            idxs@.map_values(|x: usize| x as int) == spec_selected_idx(
                file.pgns.pgn_infos@,
                pgns@.take(i as int),
            ),
            forall|j: int|
                0 <= j < i ==> spec_matching(file.pgns.pgn_infos@, #[trigger] pgns@[j]).len()
                    <= 1,
            forall|k: int|
                0 <= k < idxs@.len() ==> (#[trigger] idxs@[k]) < file.pgns.pgn_infos@.len(),
        decreases pgns@.len() - i,
    {
        proof {
            assert(pgns@.take(i + 1).drop_last() =~= pgns@.take(i as int));
            assert(pgns@.take(i + 1).last() == pgns@[i as int]);
            lemma_matching_in_range(file.pgns.pgn_infos@, pgns@[i as int]);
        }
        let m = matching_indexes(file, pgns[i]);
        if m.len() > 1 {
            proof {
                assert(!spec_unique_defs(file.pgns.pgn_infos@, pgns@));
            }
            return Err(CodegenError::MultiplePgnDefinitions(pgns[i]));
        }
        if m.len() == 1 {
            idxs.push(m[0]);
            proof {
                assert(m@.map_values(|x: usize| x as int)[0] == m@[0] as int);
                assert(idxs@.map_values(|x: usize| x as int) =~= spec_selected_idx(
                    file.pgns.pgn_infos@,
                    pgns@.take(i + 1),
                ));
            }
        }
        i += 1;
    }
    proof {
        assert(pgns@.take(pgns@.len() as int) =~= pgns@);
    }
    Ok(idxs)
}

/// The PGN numbers of the selected definitions whose framing is `Fast`, in
/// selection order.
pub open spec fn spec_fast_pgns(infos: Seq<PgnInfo>, pgns: Seq<u32>) -> Seq<u32>
    decreases pgns.len(),
{
    if pgns.len() == 0 {
        Seq::empty()
    } else {
        let rest = spec_fast_pgns(infos, pgns.drop_last());
        let m = spec_matching(infos, pgns.last());
        if m.len() > 0 && infos[m[0]].xtype@ == "Fast"@ {
            rest.push(pgns.last())
        } else {
            rest
        }
    }
}

/// Decimal numbers joined by pipes, as alternatives of a pattern.
pub open spec fn spec_pipe_join(vals: Seq<u32>) -> Seq<char>
    decreases vals.len(),
{
    if vals.len() == 0 {
        Seq::empty()
    } else if vals.len() == 1 {
        spec_dec(vals[0] as nat)
    } else {
        spec_pipe_join(vals.drop_last()) + " | "@ + spec_dec(vals.last() as nat)
    }
}

/// The registry impl the bus is driven with: fast-packet classification by
/// the selected catalog, message building through the dispatcher.
pub open spec fn spec_registry_text(infos: Seq<PgnInfo>, pgns: Seq<u32>) -> Seq<char> {
    let fast = spec_fast_pgns(infos, pgns);
    let cond: Seq<char> = if fast.len() == 0 {
        "false"@
    } else {
        "matches!(pgn, "@ + spec_pipe_join(fast) + ")"@
    };
    "pub struct PgnRegistry;\n\nimpl n2k::PgnRegistry for PgnRegistry {\n    type Message = crate::Pgn;\n    type Error = crate::types::N2kError;\n\n    fn is_fast_packet(pgn: u32) -> bool {\n        "@
        + cond
        + "\n    }\n\n    fn build_message(pgn: u32, data: &[u8]) -> Result<Self::Message, Self::Error> {\n        crate::Pgn::try_from_bytes(pgn, data)\n    }\n}\n"@
}

/// The registry impl of the selected catalog.
pub fn codegen_pgns_registry_impl(file: &PgnsFile, pgns: &Vec<u32>) -> (r: Result<
    String,
    CodegenError,
>)
    ensures
        match r {
            Ok(s) => spec_unique_defs(file.pgns.pgn_infos@, pgns@) && s@ == spec_registry_text(
                file.pgns.pgn_infos@,
                pgns@,
            ),
            Err(e) => !spec_unique_defs(file.pgns.pgn_infos@, pgns@) && e
                matches CodegenError::MultiplePgnDefinitions(_),
        },
{
    let infos = &file.pgns.pgn_infos;
    let mut fast: Vec<u32> = Vec::new();
    let mut i: usize = 0;
    while i < pgns.len()
        invariant
            i <= pgns@.len(),
            infos@ == file.pgns.pgn_infos@,
            fast@ == spec_fast_pgns(infos@, pgns@.take(i as int)),
            forall|j: int|
                0 <= j < i ==> spec_matching(infos@, #[trigger] pgns@[j]).len() <= 1,
        decreases pgns@.len() - i,
    {
        proof {
            assert(pgns@.take(i + 1).drop_last() =~= pgns@.take(i as int));
            assert(pgns@.take(i + 1).last() == pgns@[i as int]);
            lemma_matching_in_range(infos@, pgns@[i as int]);
        }
        let m = matching_indexes(file, pgns[i]);
        if m.len() > 1 {
            proof {
                assert(!spec_unique_defs(infos@, pgns@));
            }
            return Err(CodegenError::MultiplePgnDefinitions(pgns[i]));
        }
        if m.len() == 1 {
            proof {
                assert(m@.map_values(|x: usize| x as int)[0] == m@[0] as int);
            }
            if str_eq(infos[m[0]].xtype.as_str(), "Fast") {
                fast.push(pgns[i]);
            }
        }
        i += 1;
    }
    proof {
        assert(pgns@.take(pgns@.len() as int) =~= pgns@);
    }
    let mut cond: String = if fast.len() == 0 {
        String::from_str("false")
    } else {
        let mut c = String::from_str("matches!(pgn, ");
        let mut k: usize = 0;
        let mut joined = String::new();
        while k < fast.len()
            invariant
                k <= fast@.len(),
                fast@.len() > 0,
                joined@ == spec_pipe_join(fast@.take(k as int)),
            decreases fast@.len() - k,
        {
            proof {
                assert(fast@.take(k + 1).drop_last() =~= fast@.take(k as int));
                assert(fast@.take(k + 1).last() == fast@[k as int]);
            }
            if k > 0 {
                joined.append(" | ");
            }
            joined.append(dec_str(fast[k] as u64).as_str());
            k += 1;
        }
        proof {
            assert(fast@.take(fast@.len() as int) =~= fast@);
        }
        c.append(joined.as_str());
        c.append(")");
        c
    };
    let mut s = String::from_str(
        "pub struct PgnRegistry;\n\nimpl n2k::PgnRegistry for PgnRegistry {\n    type Message = crate::Pgn;\n    type Error = crate::types::N2kError;\n\n    fn is_fast_packet(pgn: u32) -> bool {\n        ",
    );
    s.append(cond.as_str());
    s.append(
        "\n    }\n\n    fn build_message(pgn: u32, data: &[u8]) -> Result<Self::Message, Self::Error> {\n        crate::Pgn::try_from_bytes(pgn, data)\n    }\n}\n",
    );
    Ok(s)
}


/// The variant line of one selected definition in the message sum type.
pub open spec fn spec_variant_decl_line(info: PgnInfo) -> Seq<char> {
    "    "@ + spec_type_ident(info.id@) + "(crate::"@ + spec_type_ident(info.id@) + "),\n"@
}

/// The dispatch arm of one selected definition.
pub open spec fn spec_variant_arm_line(info: PgnInfo) -> Seq<char> {
    "            "@ + spec_dec(info.pgn as nat) + " => Pgn::"@ + spec_type_ident(info.id@)
        + "(crate::"@ + spec_type_ident(info.id@) + "::try_from(bytes)?),\n"@
}

/// The message sum type of the selected definitions, with the dispatcher
/// that builds the right variant from a PGN and its payload bytes and
/// falls through to an unknown-PGN error.
pub open spec fn spec_variant_enum_text(infos: Seq<PgnInfo>, pgns: Seq<u32>) -> Seq<char> {
    let sel = spec_selected_idx(infos, pgns).map_values(|ix: int| infos[ix]);
    "use crate::types::N2kError;\nuse core::convert::TryFrom;\n\n#[derive(Debug)]\npub enum Pgn {\n"@
        + concat_texts(sel.map_values(|info: PgnInfo| spec_variant_decl_line(info)))
        + "}\n\nimpl Pgn {\n    pub fn try_from_bytes(pgn: u32, bytes: &[u8]) -> Result<Pgn, N2kError> {\n        Ok(match pgn {\n"@
        + concat_texts(sel.map_values(|info: PgnInfo| spec_variant_arm_line(info)))
        + "            pgn => return Err(N2kError::UnknownPgn(pgn)),\n        })\n    }\n}\n"@
}

/// The message sum type and dispatcher of the selected catalog.
pub fn codegen_pgns_variant_enum(file: &PgnsFile, pgns: &Vec<u32>) -> (r: Result<
    String,
    CodegenError,
>)
    ensures
        match r {
            Ok(s) => spec_unique_defs(file.pgns.pgn_infos@, pgns@) && s@
                == spec_variant_enum_text(file.pgns.pgn_infos@, pgns@),
            Err(e) => !spec_unique_defs(file.pgns.pgn_infos@, pgns@) && e
                matches CodegenError::MultiplePgnDefinitions(_),
        },
{
    let idxs = match select_infos(file, pgns) {
        Ok(v) => v,
        Err(e) => {
            return Err(e);
        },
    };
    let infos = &file.pgns.pgn_infos;
    let ghost sel: Seq<PgnInfo> = spec_selected_idx(infos@, pgns@).map_values(
        |ix: int| infos@[ix],
    );
    let ghost decl_lines: Seq<Seq<char>> = sel.map_values(
        |info: PgnInfo| spec_variant_decl_line(info),
    );
    let ghost arm_lines: Seq<Seq<char>> = sel.map_values(
        |info: PgnInfo| spec_variant_arm_line(info),
    );
    let mut decls = String::new();
    let mut arms = String::new();
    let mut i: usize = 0;
    while i < idxs.len()
        invariant
            i <= idxs@.len(),
            infos@ == file.pgns.pgn_infos@,
            idxs@.map_values(|x: usize| x as int) == spec_selected_idx(infos@, pgns@),
            forall|k: int| 0 <= k < idxs@.len() ==> (#[trigger] idxs@[k]) < infos@.len(),
            sel == spec_selected_idx(infos@, pgns@).map_values(|ix: int| infos@[ix]),
            decl_lines == sel.map_values(|info: PgnInfo| spec_variant_decl_line(info)),
            arm_lines == sel.map_values(|info: PgnInfo| spec_variant_arm_line(info)),
            decls@ == concat_texts(decl_lines.take(i as int)),
            arms@ == concat_texts(arm_lines.take(i as int)),
        decreases idxs@.len() - i,
    {
        proof {
            lemma_concat_texts_step(decl_lines, i as int);
            lemma_concat_texts_step(arm_lines, i as int);
            assert(sel[i as int] == infos@[idxs@[i as int] as int]);
        }
        let info = &infos[idxs[i]];
        let tname = type_ident(info.id.as_str());
        decls.append("    ");
        decls.append(tname.as_str());
        decls.append("(crate::");
        decls.append(tname.as_str());
        decls.append("),\n");
        arms.append("            ");
        arms.append(dec_str(info.pgn as u64).as_str());
        arms.append(" => Pgn::");
        arms.append(tname.as_str());
        arms.append("(crate::");
        arms.append(tname.as_str());
        arms.append("::try_from(bytes)?),\n");
        i += 1;
    }
    proof {
        assert(decl_lines.take(decl_lines.len() as int) =~= decl_lines);
        assert(arm_lines.take(arm_lines.len() as int) =~= arm_lines);
    }
    let mut s = String::from_str(
        "use crate::types::N2kError;\nuse core::convert::TryFrom;\n\n#[derive(Debug)]\npub enum Pgn {\n",
    );
    s.append(decls.as_str());
    s.append(
        "}\n\nimpl Pgn {\n    pub fn try_from_bytes(pgn: u32, bytes: &[u8]) -> Result<Pgn, N2kError> {\n        Ok(match pgn {\n",
    );
    s.append(arms.as_str());
    s.append("            pgn => return Err(N2kError::UnknownPgn(pgn)),\n        })\n    }\n}\n");
    Ok(s)
}


/// The type names of every definition of a PGN number, in catalog order.
pub open spec fn spec_names_for(infos: Seq<PgnInfo>, pgn: u32) -> Seq<Seq<char>> {
    spec_matching(infos, pgn).map_values(|ix: int| spec_type_ident(infos[ix].id@))
}

/// Texts joined by underscores.
pub open spec fn spec_join_underscore(parts: Seq<Seq<char>>) -> Seq<char>
    decreases parts.len(),
{
    if parts.len() == 0 {
        Seq::empty()
    } else if parts.len() == 1 {
        parts[0]
    } else {
        spec_join_underscore(parts.drop_last()) + "_"@ + parts.last()
    }
}

/// Whether the PGN number of definition `i` already occurs earlier in the
/// catalog.
pub open spec fn spec_pgn_seen(infos: Seq<PgnInfo>, i: int) -> bool {
    exists|j: int| 0 <= j < i && (#[trigger] infos[j]).pgn == infos[i].pgn
}

/// The catalog enum's entries after the first `n` definitions: one (name,
/// number) pair per distinct PGN number, named by the underscore-join of
/// all its definitions' type names, with repeated names collapsed.
pub open spec fn spec_catalog_entries(infos: Seq<PgnInfo>, n: int) -> Seq<(Seq<char>, u32)>
    decreases n,
{
    if n <= 0 {
        Seq::empty()
    } else {
        let rest = spec_catalog_entries(infos, n - 1);
        if spec_pgn_seen(infos, n - 1) {
            rest
        } else {
            let name = spec_join_underscore(spec_names_for(infos, infos[n - 1].pgn));
            if exists|k: int| 0 <= k < rest.len() && (#[trigger] rest[k]).0 == name {
                rest
            } else {
                rest.push((name, infos[n - 1].pgn))
            }
        }
    }
}

/// The declaration line of one catalog variant.
pub open spec fn spec_catalog_variant_line(e: (Seq<char>, u32)) -> Seq<char> {
    "    "@ + e.0 + ",\n"@
}

/// The conversion arm of one catalog variant.
pub open spec fn spec_catalog_arm_line(e: (Seq<char>, u32)) -> Seq<char> {
    "            "@ + spec_dec(e.1 as nat) + " => Self::"@ + e.0 + ",\n"@
}

/// The catalog enum over every PGN number of the file, with the checked
/// conversion from a number.
pub open spec fn spec_catalog_text(infos: Seq<PgnInfo>) -> Seq<char> {
    let entries = spec_catalog_entries(infos, infos.len() as int);
    "#![allow(non_camel_case_types)]\nuse crate::types::N2kError;\n\n#[derive(Eq, PartialEq, Debug)]\npub enum Pgns {\n"@
        + concat_texts(entries.map_values(|e: (Seq<char>, u32)| spec_catalog_variant_line(e)))
        + "}\n\nimpl core::convert::TryFrom<u32> for Pgns {\n    type Error = N2kError;\n\n    fn try_from(pgn: u32) -> Result<Self, Self::Error> {\n        Ok(match pgn {\n"@
        + concat_texts(entries.map_values(|e: (Seq<char>, u32)| spec_catalog_arm_line(e)))
        + "            v => return Err(N2kError::UnknownPgn(v)),\n        })\n    }\n}\n"@
}

/// Whether a name already stands in the list.
fn contains_name(names: &Vec<String>, n: &str) -> (r: bool)
    ensures
        r == exists|k: int| 0 <= k < names@.len() && (#[trigger] names@[k])@ == n@,
{
    let mut k: usize = 0;
    while k < names.len()
        invariant
            k <= names@.len(),
            forall|j: int| 0 <= j < k ==> (#[trigger] names@[j])@ != n@,
        decreases names@.len() - k,
    {
        if str_eq(names[k].as_str(), n) {
            return true;
        }
        k += 1;
    }
    false
}

/// The catalog enum of every PGN number in the file.
pub fn codegen_pgns_enum(file: &PgnsFile) -> (r: String)
    ensures
        r@ == spec_catalog_text(file.pgns.pgn_infos@),
{
    let infos = &file.pgns.pgn_infos;
    let ghost vline = |e: (Seq<char>, u32)| spec_catalog_variant_line(e);
    let ghost aline = |e: (Seq<char>, u32)| spec_catalog_arm_line(e);
    let mut names: Vec<String> = Vec::new();
    let mut vtext = String::new();
    let mut atext = String::new();
    let mut i: usize = 0;
    while i < infos.len()
        invariant
            i <= infos@.len(),
            infos@ == file.pgns.pgn_infos@,
            vline == |e: (Seq<char>, u32)| spec_catalog_variant_line(e),
            aline == |e: (Seq<char>, u32)| spec_catalog_arm_line(e),
            names@.map_values(|x: String| x@) == spec_catalog_entries(infos@, i as int).map_values(
                |e: (Seq<char>, u32)| e.0,
            ),
            vtext@ == concat_texts(spec_catalog_entries(infos@, i as int).map_values(vline)),
            atext@ == concat_texts(spec_catalog_entries(infos@, i as int).map_values(aline)),
        decreases infos@.len() - i,
    {
        let ghost entries = spec_catalog_entries(infos@, i as int);
        // Is this number's first appearance?
        let mut seen = false;
        let mut j: usize = 0;
        while j < i
            invariant
                j <= i,
                i < infos@.len(),
                infos@ == file.pgns.pgn_infos@,
                seen == exists|t: int|
                    0 <= t < j && (#[trigger] infos@[t]).pgn == infos@[i as int].pgn,
            decreases i - j,
        {
            if infos[j].pgn == infos[i].pgn {
                seen = true;
            }
            j += 1;
        }
        if !seen {
            // Join the type names of every definition of this number
            let m = matching_indexes(file, infos[i].pgn);
            proof {
                lemma_matching_in_range(infos@, infos@[i as int].pgn);
                assert forall|t: int| 0 <= t < m@.len() implies (#[trigger] m@[t])
                    < infos@.len() by {
                    assert(m@.map_values(|x: usize| x as int)[t] == m@[t] as int);
                }
            }
            let ghost name_parts = spec_names_for(infos@, infos@[i as int].pgn);
            let mut joined = String::new();
            let mut k: usize = 0;
            while k < m.len()
                invariant
                    k <= m@.len(),
                    infos@ == file.pgns.pgn_infos@,
                    m@.map_values(|x: usize| x as int) == spec_matching(
                        infos@,
                        infos@[i as int].pgn,
                    ),
                    i < infos@.len(),
                    name_parts == spec_names_for(infos@, infos@[i as int].pgn),
                    forall|t: int|
                        0 <= t < m@.len() ==> (#[trigger] m@[t]) < infos@.len(),
                    joined@ == spec_join_underscore(name_parts.take(k as int)),
                decreases m@.len() - k,
            {
                proof {
                    assert(name_parts.take(k + 1).drop_last() =~= name_parts.take(k as int));
                    assert(m@.map_values(|x: usize| x as int)[k as int] == m@[k as int] as int);
                    assert(name_parts.take(k + 1).last() == name_parts[k as int]);
                }
                if k > 0 {
                    joined.append("_");
                }
                joined.append(type_ident(infos[m[k]].id.as_str()).as_str());
                k += 1;
            }
            proof {
                assert(name_parts.take(name_parts.len() as int) =~= name_parts);
            }
            if !contains_name(&names, joined.as_str()) {
                proof {
                    assert(names@.map_values(|x: String| x@).len() == names@.len());
                    assert(entries.map_values(|e: (Seq<char>, u32)| e.0).len() == entries.len());
                    assert(names@.len() == entries.len());
                    assert forall|kk: int|
                        0 <= kk < entries.len() implies (#[trigger] entries[kk]).0
                        != joined@ by {
                        assert(names@.map_values(|x: String| x@)[kk] == names@[kk]@);
                        assert(entries.map_values(|e: (Seq<char>, u32)| e.0)[kk]
                            == entries[kk].0);
                    }
                    assert(spec_catalog_entries(infos@, i + 1) == entries.push(
                        (joined@, infos@[i as int].pgn),
                    ));
                    lemma_concat_texts_step(
                        spec_catalog_entries(infos@, i + 1).map_values(vline),
                        entries.len() as int,
                    );
                    lemma_concat_texts_step(
                        spec_catalog_entries(infos@, i + 1).map_values(aline),
                        entries.len() as int,
                    );
                    assert(spec_catalog_entries(infos@, i + 1).map_values(vline).take(
                        entries.len() as int,
                    ) =~= entries.map_values(vline));
                    assert(spec_catalog_entries(infos@, i + 1).map_values(aline).take(
                        entries.len() as int,
                    ) =~= entries.map_values(aline));
                }
                vtext.append("    ");
                vtext.append(joined.as_str());
                vtext.append(",\n");
                atext.append("            ");
                atext.append(dec_str(infos[i].pgn as u64).as_str());
                atext.append(" => Self::");
                atext.append(joined.as_str());
                atext.append(",\n");
                let ghost names_before = names@;
                let ghost jv = joined@;
                names.push(joined);
                proof {
                    assert(names@ == names_before.push(joined));
                    let f = |x: String| x@;
                    let g = |e: (Seq<char>, u32)| e.0;
                    let post = spec_catalog_entries(infos@, i + 1);
                    assert(post == entries.push((jv, infos@[i as int].pgn)));
                    assert forall|t: int|
                        0 <= t < names@.len() implies names@.map_values(f)[t] == post.map_values(
                        g,
                    )[t] by {
                        if t < names_before.len() {
                            assert(names_before.map_values(|x: String| x@)[t]
                                == names_before[t]@);
                            assert(names@[t] == names_before[t]);
                            assert(post[t] == entries[t]);
                            assert(entries.map_values(|e: (Seq<char>, u32)| e.0)[t]
                                == entries[t].0);
                            assert(names_before.map_values(|x: String| x@) == entries.map_values(
                                |e: (Seq<char>, u32)| e.0,
                            ));
                        } else {
                            assert(names@[t]@ == jv);
                            assert(post[t].0 == jv);
                        }
                    }
                    assert(names@.map_values(f).len() == post.map_values(g).len());
                    assert(names@.map_values(|x: String| x@) =~= post.map_values(
                        |e: (Seq<char>, u32)| e.0,
                    ));
                }
            } else {
                proof {
                    assert(names@.map_values(|x: String| x@).len() == names@.len());
                    assert(entries.map_values(|e: (Seq<char>, u32)| e.0).len() == entries.len());
                    assert(names@.len() == entries.len());
                    let kk = choose|kk: int|
                        0 <= kk < names@.len() && (#[trigger] names@[kk])@ == joined@;
                    assert(names@.map_values(|x: String| x@)[kk] == names@[kk]@);
                    assert(entries.map_values(|e: (Seq<char>, u32)| e.0)[kk] == entries[kk].0);
                    assert(entries[kk].0 == joined@);
                    assert(spec_catalog_entries(infos@, i + 1) =~= entries);
                }
            }
        } else {
            proof {
                assert(spec_catalog_entries(infos@, i + 1) =~= entries);
            }
        }
        i += 1;
    }
    let mut s = String::from_str(
        "#![allow(non_camel_case_types)]\nuse crate::types::N2kError;\n\n#[derive(Eq, PartialEq, Debug)]\npub enum Pgns {\n",
    );
    s.append(vtext.as_str());
    s.append(
        "}\n\nimpl core::convert::TryFrom<u32> for Pgns {\n    type Error = N2kError;\n\n    fn try_from(pgn: u32) -> Result<Self, Self::Error> {\n        Ok(match pgn {\n",
    );
    s.append(atext.as_str());
    s.append("            v => return Err(N2kError::UnknownPgn(v)),\n        })\n    }\n}\n");
    s
}



/// Pushing a file extends the (path, contents) listing by its pair.
proof fn lemma_files_map_push(vs: Seq<GeneratedFile>, g: GeneratedFile)
    ensures
        vs.push(g).map_values(|g2: GeneratedFile| (g2.path@, g2.contents@)) == vs.map_values(
            |g2: GeneratedFile| (g2.path@, g2.contents@),
        ).push((g.path@, g.contents@)),
{
    let f = |g2: GeneratedFile| (g2.path@, g2.contents@);
    assert forall|t: int| 0 <= t < vs.push(g).len() implies vs.push(g).map_values(f)[t]
        == vs.map_values(f).push((g.path@, g.contents@))[t] by {
        if t < vs.len() {
            assert(vs.push(g)[t] == vs[t]);
        } else {
            assert(vs.push(g)[t] == g);
        }
    }
    assert(vs.push(g).map_values(f) =~= vs.map_values(f).push((g.path@, g.contents@)));
}

/// The selected definitions themselves, in selection order.
pub open spec fn spec_selected(infos: Seq<PgnInfo>, pgns: Seq<u32>) -> Seq<PgnInfo> {
    spec_selected_idx(infos, pgns).map_values(|ix: int| infos[ix])
}

/// The types module of a generated package: the runtime error of the
/// decoders.
pub open spec fn spec_types_rs_text() -> Seq<char> {
    "#[derive(Debug)]\npub enum N2kError {\n    InvalidPayloadSize {\n        pgn: u32,\n        expected: usize,\n        actual: usize,\n    },\n    UnknownPgn(u32),\n}\n"@
}

/// The manifest of a generated standalone package.
pub open spec fn spec_cargo_toml_text(name: Seq<char>) -> Seq<char> {
    "[package]\nname = \""@ + name
        + "\"\nversion = \"0.1.0\"\nedition = \"2018\"\n\n[dependencies]\nn2k = \"*\"\n"@
}

/// The re-export line of one selected definition in the root module.
pub open spec fn spec_use_line(info: PgnInfo) -> Seq<char> {
    "pub use messages::"@ + snake_of(info.id@) + "::"@ + spec_type_ident(info.id@) + ";\n"@
}

/// The module line of one selected definition in the messages module.
pub open spec fn spec_mod_line(info: PgnInfo) -> Seq<char> {
    "pub mod "@ + snake_of(info.id@) + ";\n"@
}

/// The root module of a generated package: the fixed module frame and one
/// re-export per selected definition.
pub open spec fn spec_lib_rs_text(sel: Seq<PgnInfo>) -> Seq<char> {
    "mod messages;\nmod types;\nmod pgns;\npub use pgns::Pgns;\nmod pgn;\npub use pgn::Pgn;\nmod registry;\npub use registry::PgnRegistry;\n"@
        + concat_texts(sel.map_values(|info: PgnInfo| spec_use_line(info)))
}

/// The messages module: one submodule per selected definition.
pub open spec fn spec_messages_mod_text(sel: Seq<PgnInfo>) -> Seq<char> {
    concat_texts(sel.map_values(|info: PgnInfo| spec_mod_line(info)))
}

/// The path of one selected definition's module file.
pub open spec fn spec_module_path(info: PgnInfo) -> Seq<char> {
    "src/messages/"@ + snake_of(info.id@) + ".rs"@
}

/// Every selected definition is one the generator can emit.
pub open spec fn spec_codegen_ok(infos: Seq<PgnInfo>, pgns: Seq<u32>) -> bool {
    &&& spec_unique_defs(infos, pgns)
    &&& forall|k: int|
        0 <= k < spec_selected(infos, pgns).len() ==> spec_fields_ok(
            (#[trigger] spec_selected(infos, pgns)[k]).fields.fields@,
        ) && spec_enums_ok(spec_selected(infos, pgns)[k].fields.fields@)
}

/// Every definition's fields lie within the machine's reach.
pub open spec fn spec_file_bounded(infos: Seq<PgnInfo>) -> bool {
    forall|i: int|
        0 <= i < infos.len() ==> spec_fields_bounded((#[trigger] infos[i]).fields.fields@)
}

/// The files generation produces, in order: the manifest of a standalone
/// package, the types module, the root module (`lib.rs` for a package,
/// `mod.rs` for a submodule), the catalog enum, the message sum type, the
/// registry impl, the messages module, and one module per selected
/// definition.
pub open spec fn spec_generated_files(
    infos: Seq<PgnInfo>,
    pgns: Seq<u32>,
    crate_name: Option<Seq<char>>,
) -> Seq<(Seq<char>, Seq<char>)> {
    let sel = spec_selected(infos, pgns);
    let head: Seq<(Seq<char>, Seq<char>)> = match crate_name {
        Some(n) => seq![("Cargo.toml"@, spec_cargo_toml_text(n))],
        None => Seq::empty(),
    };
    let root: Seq<char> = if crate_name is Some {
        "src/lib.rs"@
    } else {
        "src/mod.rs"@
    };
    head + seq![
        ("src/types.rs"@, spec_types_rs_text()),
        (root, spec_lib_rs_text(sel)),
        ("src/pgns.rs"@, spec_catalog_text(infos)),
        ("src/pgn.rs"@, spec_variant_enum_text(infos, pgns)),
        ("src/registry.rs"@, spec_registry_text(infos, pgns)),
        ("src/messages/mod.rs"@, spec_messages_mod_text(sel)),
    ] + sel.map_values(|info: PgnInfo| (spec_module_path(info), spec_pgn_module_text(info)))
}

/// Generates the selected subset of a catalog: the decoder module of every
/// selected PGN, the catalog and message enums, the registry impl, and the
/// frame that ties them into a package or a submodule.
pub fn codegen(file: &PgnsFile, pgns: &Vec<u32>, crate_name: Option<&str>) -> (r: Result<
    Vec<GeneratedFile>,
    CodegenError,
>)
    requires
        spec_file_bounded(file.pgns.pgn_infos@),
    ensures
        match r {
            Ok(files) => {
                &&& spec_codegen_ok(file.pgns.pgn_infos@, pgns@)
                &&& files@.map_values(|g: GeneratedFile| (g.path@, g.contents@))
                    == spec_generated_files(
                    file.pgns.pgn_infos@,
                    pgns@,
                    match crate_name {
                        Some(n) => Some(n@),
                        None => None,
                    },
                )
            },
            Err(_) => !spec_codegen_ok(file.pgns.pgn_infos@, pgns@),
        },
{
    let infos = &file.pgns.pgn_infos;
    let idxs = match select_infos(file, pgns) {
        Ok(v) => v,
        Err(e) => {
            return Err(e);
        },
    };
    let ghost sel: Seq<PgnInfo> = spec_selected(infos@, pgns@);
    let registry_text = match codegen_pgns_registry_impl(file, pgns) {
        Ok(t) => t,
        Err(e) => {
            return Err(e);
        },
    };
    let variant_text = match codegen_pgns_variant_enum(file, pgns) {
        Ok(t) => t,
        Err(e) => {
            return Err(e);
        },
    };
    let catalog_text = codegen_pgns_enum(file);

    // The root module and the messages module grow one line per selected
    // definition; each definition gets its own module file.
    let mut lib_text = String::from_str(
        "mod messages;\nmod types;\nmod pgns;\npub use pgns::Pgns;\nmod pgn;\npub use pgn::Pgn;\nmod registry;\npub use registry::PgnRegistry;\n",
    );
    let mut messages_mod = String::new();
    let mut modules: Vec<GeneratedFile> = Vec::new();
    let ghost use_lines: Seq<Seq<char>> = sel.map_values(|info: PgnInfo| spec_use_line(info));
    let ghost mod_lines: Seq<Seq<char>> = sel.map_values(|info: PgnInfo| spec_mod_line(info));
    let ghost module_entries: Seq<(Seq<char>, Seq<char>)> = sel.map_values(
        |info: PgnInfo| (spec_module_path(info), spec_pgn_module_text(info)),
    );
    let mut i: usize = 0;
    while i < idxs.len()
        invariant
            i <= idxs@.len(),
            infos@ == file.pgns.pgn_infos@,
            idxs@.map_values(|x: usize| x as int) == spec_selected_idx(infos@, pgns@),
            forall|k: int| 0 <= k < idxs@.len() ==> (#[trigger] idxs@[k]) < infos@.len(),
            spec_file_bounded(infos@),
            sel == spec_selected(infos@, pgns@),
            use_lines == sel.map_values(|info: PgnInfo| spec_use_line(info)),
            mod_lines == sel.map_values(|info: PgnInfo| spec_mod_line(info)),
            module_entries == sel.map_values(
                |info: PgnInfo| (spec_module_path(info), spec_pgn_module_text(info)),
            ),
            lib_text@ == "mod messages;\nmod types;\nmod pgns;\npub use pgns::Pgns;\nmod pgn;\npub use pgn::Pgn;\nmod registry;\npub use registry::PgnRegistry;\n"@
                + concat_texts(use_lines.take(i as int)),
            messages_mod@ == concat_texts(mod_lines.take(i as int)),
            modules@.map_values(|g: GeneratedFile| (g.path@, g.contents@)) == module_entries.take(
                i as int,
            ),
            forall|k: int|
                0 <= k < i ==> spec_fields_ok((#[trigger] sel[k]).fields.fields@)
                    && spec_enums_ok(sel[k].fields.fields@),
        decreases idxs@.len() - i,
    {
        proof {
            lemma_concat_texts_step(use_lines, i as int);
            lemma_concat_texts_step(mod_lines, i as int);
            assert(sel[i as int] == infos@[idxs@[i as int] as int]);
        }
        let info = &infos[idxs[i]];
        let snake = to_snake(info.id.as_str());
        let tname = type_ident(info.id.as_str());
        lib_text.append("pub use messages::");
        lib_text.append(snake.as_str());
        lib_text.append("::");
        lib_text.append(tname.as_str());
        lib_text.append(";\n");
        messages_mod.append("pub mod ");
        messages_mod.append(snake.as_str());
        messages_mod.append(";\n");
        let module_text = match codegen_pgn(info) {
            Ok(t) => t,
            Err(e) => {
                proof {
                    assert(!spec_codegen_ok(infos@, pgns@));
                }
                return Err(e);
            },
        };
        let mut path = String::from_str("src/messages/");
        path.append(snake.as_str());
        path.append(".rs");
        let ghost modules_before = modules@;
        let ghost pv = path@;
        let ghost cv = module_text@;
        let gf = GeneratedFile { path, contents: module_text };
        proof {
            lemma_files_map_push(modules_before, gf);
        }
        modules.push(gf);
        proof {
            assert(module_entries[i as int] == (pv, cv));
            assert(modules@.map_values(|g: GeneratedFile| (g.path@, g.contents@))
                =~= module_entries.take(i + 1));
        }
        i += 1;
    }
    proof {
        assert(use_lines.take(use_lines.len() as int) =~= use_lines);
        assert(mod_lines.take(mod_lines.len() as int) =~= mod_lines);
        assert(module_entries.take(module_entries.len() as int) =~= module_entries);
    }
    let mut files: Vec<GeneratedFile> = Vec::new();
    let root_path: &str = match crate_name {
        Some(name) => {
            let mut cargo = String::from_str("[package]\nname = \"");
            cargo.append(name);
            cargo.append(
                "\"\nversion = \"0.1.0\"\nedition = \"2018\"\n\n[dependencies]\nn2k = \"*\"\n",
            );
            files.push(GeneratedFile { path: String::from_str("Cargo.toml"), contents: cargo });
            "src/lib.rs"
        },
        None => "src/mod.rs",
    };
    files.push(
        GeneratedFile {
            path: String::from_str("src/types.rs"),
            contents: String::from_str(
                "#[derive(Debug)]\npub enum N2kError {\n    InvalidPayloadSize {\n        pgn: u32,\n        expected: usize,\n        actual: usize,\n    },\n    UnknownPgn(u32),\n}\n",
            ),
        },
    );
    files.push(GeneratedFile { path: String::from_str(root_path), contents: lib_text });
    files.push(GeneratedFile { path: String::from_str("src/pgns.rs"), contents: catalog_text });
    files.push(GeneratedFile { path: String::from_str("src/pgn.rs"), contents: variant_text });
    files.push(
        GeneratedFile { path: String::from_str("src/registry.rs"), contents: registry_text },
    );
    files.push(
        GeneratedFile { path: String::from_str("src/messages/mod.rs"), contents: messages_mod },
    );
    let ghost fixed: Seq<(Seq<char>, Seq<char>)> = files@.map_values(
        |g: GeneratedFile| (g.path@, g.contents@),
    );
    let mut k: usize = 0;
    while k < modules.len()
        invariant
            k <= modules@.len(),
            modules@.map_values(|g: GeneratedFile| (g.path@, g.contents@)) == module_entries,
            files@.map_values(|g: GeneratedFile| (g.path@, g.contents@)) == fixed
                + module_entries.take(k as int),
        decreases modules@.len() - k,
    {
        let ghost gfk = modules@[k as int];
        let m = &modules[k];
        let mut path2 = String::new();
        path2.append(m.path.as_str());
        let mut contents2 = String::new();
        contents2.append(m.contents.as_str());
        let gf2 = GeneratedFile { path: path2, contents: contents2 };
        let ghost files_before = files@;
        proof {
            lemma_files_map_push(files_before, gf2);
        }
        files.push(gf2);
        proof {
            assert(modules@.map_values(|g: GeneratedFile| (g.path@, g.contents@))[k as int]
                == (gfk.path@, gfk.contents@));
            assert(module_entries[k as int] == (gfk.path@, gfk.contents@));
            assert(files@.map_values(|g: GeneratedFile| (g.path@, g.contents@)) =~= fixed
                + module_entries.take(k + 1));
        }
        k += 1;
    }
    proof {
        assert(module_entries.take(module_entries.len() as int) =~= module_entries);
        assert(files@.map_values(|g: GeneratedFile| (g.path@, g.contents@))
            =~= spec_generated_files(
            infos@,
            pgns@,
            match crate_name {
                Some(n) => Some(n@),
                None => None,
            },
        ));
    }
    Ok(files)
}

} // verus!
