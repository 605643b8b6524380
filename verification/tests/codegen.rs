use n2k::codegen::emit::{codegen, codegen_pgn, codegen_pgns_enum, codegen_pgns_registry_impl};
use n2k::codegen::names::{field_ident, type_ident};
use n2k::codegen::schema::{EnumPair, EnumValues, Field, Fields, PgnInfo, Pgns, PgnsFile};
use n2k::codegen::CodegenError;

/// Joins lines with newlines, ending with one.
fn concat_lines(lines: &[&str]) -> String {
    let mut s = String::new();
    for l in lines {
        s.push_str(l);
        s.push('\n');
    }
    s
}

fn field(id: &str, signed: bool, bit_length: usize, bit_offset: usize, n2k_type: &str) -> Field {
    Field {
        order: String::from("1"),
        id: String::from(id),
        name: String::from(id),
        signed,
        bit_length,
        bit_offset,
        n2k_type: String::from(n2k_type),
        resolution: String::from("1"),
        enum_values: EnumValues::default(),
    }
}

fn info(pgn: u32, id: &str, length: usize, xtype: &str, fields: Vec<Field>) -> PgnInfo {
    PgnInfo {
        pgn,
        id: String::from(id),
        length,
        xtype: String::from(xtype),
        fields: Fields { fields },
    }
}

fn file(infos: Vec<PgnInfo>) -> PgnsFile {
    PgnsFile {
        comment: String::new(),
        creator_code: String::new(),
        license: String::new(),
        pgns: Pgns { pgn_infos: infos },
    }
}

#[test]
fn identifier_casing() {
    assert_eq!(type_ident("vesselHeading"), "VesselHeading");
    assert_eq!(type_ident("type"), "XType");
    assert_eq!(type_ident("123abc"), "X123abc");
    assert_eq!(field_ident("PGN"), "pgn");
    assert_eq!(field_ident("vesselHeading"), "vessel_heading");
    assert_eq!(field_ident("123abc"), "x123abc");
}

#[test]
fn module_text_for_plain_field() {
    let i = info(59904, "isoRequest", 3, "Single", vec![field("pgn", false, 24, 0, "Integer")]);
    let text = codegen_pgn(&i).unwrap();
    let expected = concat_lines(&[
        "use crate::types::N2kError;",
        "",
        "pub struct IsoRequest {",
        "    raw: [u8; 3],",
        "}",
        "",
        "impl core::convert::TryFrom<&[u8]> for IsoRequest {",
        "    type Error = N2kError;",
        "",
        "    fn try_from(payload: &[u8]) -> Result<Self, Self::Error> {",
        "        if payload.len() < 3 {",
        "            return Err(N2kError::InvalidPayloadSize { expected: 3, actual: payload.len(), pgn: 59904 });",
        "        }",
        "        let mut raw = [0u8; 3];",
        "        raw.copy_from_slice(&payload[..3]);",
        "        Ok(Self { raw })",
        "    }",
        "}",
        "",
        "impl IsoRequest {",
        "    pub fn pgn_raw(&self) -> u32 {",
        "        n2k::bits::load_be_bits(&self.raw, 0, 24) as u32",
        "    }",
        "",
        "}",
        "",
        "impl core::fmt::Debug for IsoRequest {",
        "    fn fmt(&self, f: &mut core::fmt::Formatter<'_>) -> core::fmt::Result {",
        "        f.debug_struct(\"IsoRequest\")",
        "            .field(\"pgn_raw\", &self.pgn_raw())",
        "            .finish()",
        "    }",
        "}",
    ]);
    assert_eq!(text, expected);
}

#[test]
fn accessor_shapes() {
    // Signed fields reinterpret the raw bits; one-bit fields become flags;
    // scaled fields multiply by the declared resolution.
    let mut scaled = field("speed", false, 16, 8, "");
    scaled.resolution = String::from("0.004");
    let i = info(
        128259,
        "speed",
        8,
        "Single",
        vec![field("sid", true, 8, 0, ""), field("flag", false, 1, 24, ""), scaled],
    );
    let text = codegen_pgn(&i).unwrap();
    assert!(text.contains(
        "    pub fn sid_raw(&self) -> i8 {\n        n2k::bits::load_be_bits(&self.raw, 0, 8) as u8 as i8\n    }\n"
    ));
    assert!(text.contains(
        "    pub fn flag_raw(&self) -> bool {\n        n2k::bits::load_be_bits(&self.raw, 24, 1) == 1\n    }\n"
    ));
    assert!(text.contains(
        "    pub fn speed(&self) -> f32 {\n        (self.speed_raw() as f32) * (0.004 as f32)\n    }\n"
    ));
}

#[test]
fn enum_values_binary_and_decimal() {
    let mut f = field("mode", false, 4, 0, "Lookup table");
    f.enum_values = EnumValues {
        enum_values: vec![
            EnumPair { value: String::from("0001"), name: String::from("off") },
            EnumPair { value: String::from("0010"), name: String::from("on") },
        ],
    };
    let i = info(127250, "heading", 8, "Single", vec![f]);
    let text = codegen_pgn(&i).unwrap();
    // All-binary values are read in base two before they are emitted.
    assert!(text.contains("#[derive(Debug)]\npub enum Mode {\n    Off,\n    On,\n    Other(u8),\n}\n"));
    assert!(text.contains("            1 => Self::Off,\n            2 => Self::On,\n"));
    assert!(text.contains("    pub fn mode(&self) -> Mode {\n        self.mode_raw().into()\n    }\n"));

    // A decimal value keeps its text.
    let mut f = field("mode", false, 4, 0, "Lookup table");
    f.enum_values = EnumValues {
        enum_values: vec![EnumPair { value: String::from("12"), name: String::from("slow") }],
    };
    let i = info(127250, "heading", 8, "Single", vec![f]);
    let text = codegen_pgn(&i).unwrap();
    assert!(text.contains("            12 => Self::Slow,\n"));
}

#[test]
fn registry_classifies_fast_packets() {
    let f = file(vec![
        info(59904, "isoRequest", 3, "Single", vec![]),
        info(130820, "fusionMedia", 223, "Fast", vec![]),
    ]);
    let text = codegen_pgns_registry_impl(&f, &vec![59904, 130820]).unwrap();
    assert!(text.contains("    fn is_fast_packet(pgn: u32) -> bool {\n        matches!(pgn, 130820)\n    }\n"));
    let text = codegen_pgns_registry_impl(&f, &vec![59904]).unwrap();
    assert!(text.contains("    fn is_fast_packet(pgn: u32) -> bool {\n        false\n    }\n"));
}

#[test]
fn catalog_enum_text() {
    let f = file(vec![
        info(59904, "isoRequest", 3, "Single", vec![]),
        info(60928, "isoAddressClaim", 8, "Single", vec![]),
    ]);
    let text = codegen_pgns_enum(&f);
    let expected = concat_lines(&[
        "#![allow(non_camel_case_types)]",
        "use crate::types::N2kError;",
        "",
        "#[derive(Eq, PartialEq, Debug)]",
        "pub enum Pgns {",
        "    IsoRequest,",
        "    IsoAddressClaim,",
        "}",
        "",
        "impl core::convert::TryFrom<u32> for Pgns {",
        "    type Error = N2kError;",
        "",
        "    fn try_from(pgn: u32) -> Result<Self, Self::Error> {",
        "        Ok(match pgn {",
        "            59904 => Self::IsoRequest,",
        "            60928 => Self::IsoAddressClaim,",
        "            v => return Err(N2kError::UnknownPgn(v)),",
        "        })",
        "    }",
        "}",
    ]);
    assert_eq!(text, expected);
}

#[test]
fn catalog_collapses_duplicates() {
    // Two definitions of one number name the variant jointly; repeated
    // numbers and names appear once.
    let f = file(vec![
        info(126720, "fusionRequest", 8, "Fast", vec![]),
        info(126720, "fusionCommand", 8, "Fast", vec![]),
    ]);
    let text = codegen_pgns_enum(&f);
    assert!(text.contains("pub enum Pgns {\n    FusionRequest_FusionCommand,\n}\n"));
    assert!(text.contains("            126720 => Self::FusionRequest_FusionCommand,\n"));
}

#[test]
fn generated_file_set() {
    let f = file(vec![
        info(59904, "isoRequest", 3, "Single", vec![field("pgn", false, 24, 0, "Integer")]),
    ]);
    let files = codegen(&f, &vec![59904], Some("my_pgns")).unwrap();
    let paths: Vec<&str> = files.iter().map(|g| g.path.as_str()).collect();
    assert_eq!(
        paths,
        vec![
            "Cargo.toml",
            "src/types.rs",
            "src/lib.rs",
            "src/pgns.rs",
            "src/pgn.rs",
            "src/registry.rs",
            "src/messages/mod.rs",
            "src/messages/iso_request.rs",
        ]
    );
    assert!(files[0].contents.contains("name = \"my_pgns\""));
    assert!(files[1].contents.contains("pub enum N2kError"));
    assert!(files[2].contents.contains("pub use messages::iso_request::IsoRequest;\n"));
    assert_eq!(files[6].contents, "pub mod iso_request;\n");
    assert!(files[4].contents.contains(
        "            59904 => Pgn::IsoRequest(crate::IsoRequest::try_from(bytes)?),\n"
    ));

    // As a submodule, the root file is mod.rs and no manifest is written.
    let files = codegen(&f, &vec![59904], None).unwrap();
    assert_eq!(files[1].path, "src/mod.rs");
    assert_eq!(files[0].path, "src/types.rs");
}

#[test]
fn generator_hard_failures() {
    // The same number twice in the catalog: selection is refused.
    let f = file(vec![
        info(126720, "a", 8, "Fast", vec![]),
        info(126720, "b", 8, "Fast", vec![]),
    ]);
    assert!(matches!(
        codegen(&f, &vec![126720], None),
        Err(CodegenError::MultiplePgnDefinitions(126720))
    ));

    // A field kind the generator has no mapping for.
    let f = file(vec![info(1, "a", 8, "Single", vec![field("x", false, 8, 0, "Mystery")])]);
    assert!(matches!(codegen(&f, &vec![1], None), Err(CodegenError::UnhandledN2kType(_))));

    // An integer field scaled like a float.
    let mut bad = field("x", false, 8, 0, "Integer");
    bad.resolution = String::from("0.1");
    let f = file(vec![info(1, "a", 8, "Single", vec![bad])]);
    assert!(matches!(codegen(&f, &vec![1], None), Err(CodegenError::FloatInteger)));

    // An enumeration value that is no numeral.
    let mut bad = field("x", false, 8, 0, "Lookup table");
    bad.enum_values = EnumValues {
        enum_values: vec![EnumPair { value: String::from("N/A"), name: String::from("n") }],
    };
    let f = file(vec![info(1, "a", 8, "Single", vec![bad])]);
    assert!(matches!(codegen(&f, &vec![1], None), Err(CodegenError::BadEnumValue(_))));
}
