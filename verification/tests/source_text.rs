use framegen::file::Declaration;
use framegen::file::GenFile;
use framegen::generate::bitfield::BitField;
use framegen::generate::bitfield::Domain;
use framegen::generate::structure::AlternativeOptions;
use framegen::generate::structure::Structure;
use framegen::render_ie_control;
use framegen::run;
use framegen::text::decimal_of;
use framegen::text::ident_of;
use framegen::text::one_line_of;

#[test]
fn numbers_are_written_in_decimal() {
    assert_eq!(decimal_of(0), "0");
    assert_eq!(decimal_of(7), "7");
    assert_eq!(decimal_of(10), "10");
    assert_eq!(decimal_of(255), "255");
    assert_eq!(decimal_of(1_234_567_890), "1234567890");
    assert_eq!(decimal_of(u64::MAX), "18446744073709551615");
}

#[test]
fn names_become_identifiers() {
    assert_eq!(ident_of("Frame_control"), "Frame_control");
    assert_eq!(ident_of("IE Control"), "IE_Control");
    assert_eq!(ident_of("a-b.c/d9"), "a_b_c_d9");
    assert_eq!(ident_of(""), "");
    assert_eq!(ident_of("gr\u{fc}n"), "gr_n");
}

#[test]
fn descriptions_stay_on_one_line() {
    assert_eq!(one_line_of("one\ntwo\r\nthree"), "one two  three");
    assert_eq!(one_line_of("plain (text)."), "plain (text).");
}

#[test]
fn a_container_becomes_a_tuple_struct() {
    let d = Declaration::Container {
        name: "Kind flag".to_string(),
        description: "A kind,\na flag.".to_string(),
        bits: 8,
    };
    assert_eq!(
        d.source(),
        "/// A kind, a flag.\n#[derive(Clone, Copy, Debug, PartialEq, Eq)]\npub struct Kind_flag(pub u8);\n"
    );
}

#[test]
fn the_helper_of_the_structure_codecs_reports_short_input() {
    let text = Declaration::Imports.source();
    assert!(text.starts_with("use core::convert::TryInto;\n\nfn take<const N: usize>("));
    assert!(text.ends_with("        .ok_or(\"TruncatedInput\")\n}\n"));
}

#[test]
fn a_unit_holds_the_text_of_each_declaration_in_order() {
    let schema = BitField::new("kf", "Kind and flag.")
        .add_bit_field(
            "kind",
            "The kind.",
            2,
            Domain::new()
                .add_enum_value("A", 0)
                .add_enum_value_desc("B", "The second.", 1)
                .add_enum_value("C", 2),
        )
        .add_bit_field("count", "How many.", 3, Domain::new().numeric())
        .add_reserved(3);
    let mut file = GenFile::new();
    file.add_bitfield(&schema).unwrap();
    let unit = file.into_unit("out/kf.rs");
    let parts: Vec<String> = unit.declarations.iter().map(|d| d.source()).collect();
    assert_eq!(parts.len(), 4);
    assert_eq!(
        parts[0],
        "/// Kind and flag.\n#[derive(Clone, Copy, Debug, PartialEq, Eq)]\npub struct kf(pub u8);\n"
    );
    assert!(parts[1].starts_with(
        "#[derive(Clone, Copy, Debug, PartialEq, Eq)]\npub enum kf_kind {\n    A,\n    /// The second.\n    B,\n    C,\n}\n"
    ));
    assert!(parts[1].contains("            1 => Ok(Self::B),\n"));
    assert!(parts[1].contains("            _ => Err(\"UndeclaredDiscriminant\"),\n"));
    assert!(parts[1].contains("            Self::C => 2,\n"));
    assert_eq!(
        parts[2],
        "impl kf {\n    /// The kind.\n    pub fn kind(&self) -> Result<kf_kind, &'static str> {\n        kf_kind::from_raw(((self.0 as u64) >> 0) & 3)\n    }\n\n    pub fn with_kind(self, value: kf_kind) -> Self {\n        Self(((self.0 as u64) & !(3 << 0) | (value.raw() & 3) << 0) as u8)\n    }\n}\n"
    );
    assert_eq!(
        parts[3],
        "impl kf {\n    /// How many.\n    pub fn count(&self) -> u64 {\n        ((self.0 as u64) >> 2) & 7\n    }\n\n    pub fn with_count(self, value: u64) -> Self {\n        Self(((self.0 as u64) & !(7 << 2) | (value & 7) << 2) as u8)\n    }\n}\n"
    );
    let mut whole = String::new();
    for part in &parts {
        whole.push_str(part);
        whole.push('\n');
    }
    assert_eq!(unit.source(), whole);
}

#[test]
fn a_slot_without_bits_is_read_at_position_zero() {
    let d = Declaration::Slot {
        container: "c".to_string(),
        bits: 64,
        slot: "s".to_string(),
        description: String::new(),
        offset: 64,
        width: 0,
        symbolic: false,
    };
    assert!(d.source().contains("((self.0 as u64) >> 0) & 0\n"));
    let d = Declaration::Slot {
        container: "c".to_string(),
        bits: 64,
        slot: "s".to_string(),
        description: String::new(),
        offset: 0,
        width: 64,
        symbolic: false,
    };
    assert!(d.source().contains("((self.0 as u64) >> 0) & 18446744073709551615\n"));
    assert!(d.source().contains(") as u64)\n"));
}

#[test]
fn members_have_the_types_of_their_fields() {
    let group = AlternativeOptions::new("address", &Structure::new("addr none"));
    let hdr = Structure::new("hdr")
        .add_u8_field("a")
        .add_u16_field("b")
        .add_u32_field("c")
        .add_u64_field("d")
        .add_bytes_field("e", 8)
        .add_bitfield("f", "frame control", 2)
        .add_alt_field("g", &group);
    let text = Declaration::Record { schema: hdr }.source();
    assert!(text.starts_with(
        "#[derive(Clone, Debug, PartialEq, Eq)]\npub struct hdr {\n    pub a: u8,\n    pub b: u16,\n    pub c: u32,\n    pub d: u64,\n    pub e: [u8; 8],\n    pub f: frame_control,\n    pub g: address,\n}\n\nimpl hdr {\n"
    ));
    assert!(text.contains("        let f_e = take::<8>(input, at)?;\n        let at = at + 8;\n"));
    assert!(text.contains("        out.extend_from_slice(&self.f.0.to_le_bytes());\n"));
    assert!(text.ends_with("            g: f_g,\n        }, at))\n    }\n}\n"));
}

#[test]
fn a_case_without_a_discriminant_cannot_be_selected() {
    let d = Declaration::Variants {
        name: "g".to_string(),
        cases: vec!["a".to_string(), "b".to_string()],
        tags: vec![5],
    };
    let text = d.source();
    assert!(text.starts_with(
        "#[derive(Clone, Debug, PartialEq, Eq)]\npub enum g {\n    /// Selected by 5.\n    a(a),\n    b(b),\n}\n"
    ));
    assert!(text.contains("            Self::b(shape) => shape.encode(out),\n"));
    assert!(text.contains(
        "        match selector {\n            5 => a::decode(input, &[]).map(|(shape, used)| (Self::a(shape), used)),\n            _ => Err(\"UnresolvedVariant\"),\n"
    ));
}

#[test]
fn a_field_of_no_integer_width_is_a_run_of_bytes() {
    let d = Declaration::Record { schema: Structure::new("s").add_bytes_field("x", 0) };
    assert!(d.source().contains("    pub x: [u8; 0],\n"));
}

#[test]
fn the_element_identifiers_are_written_with_their_integers() {
    let text = render_ie_control().unwrap().source();
    assert!(text.starts_with("/// Specifies the type of an IE header.\n"));
    assert!(text.contains("pub struct IE_Control(pub u16);\n"));
    assert!(text.contains(
        "pub enum IE_Control_Element_id {\n    /// Vendor Specific Header IE\n    vendor_specific,\n"
    ));
    assert!(text.contains("    /// Rendezvous Time IE\n    Rendezvous_Time_IE,\n"));
    assert!(text.contains("            29 => Ok(Self::Rendezvous_Time_IE),\n"));
    assert!(text.contains("            Self::Header_termination_2 => 127,\n"));
    assert!(text.contains("IE_Control_Element_id::from_raw(((self.0 as u64) >> 7) & 255)\n"));
    assert!(text.contains(
        "    pub fn Length(&self) -> u64 {\n        ((self.0 as u64) >> 0) & 127\n"
    ));
    assert!(text.contains(
        "    pub fn Type(&self) -> Result<IE_Control_Type, &'static str> {\n        IE_Control_Type::from_raw(((self.0 as u64) >> 15) & 1)\n"
    ));
}

#[test]
fn every_unit_has_a_text() {
    for unit in run().unwrap() {
        let text = unit.source();
        assert!(text.ends_with("\n\n"));
        for declaration in &unit.declarations {
            assert!(text.contains(&declaration.source()));
        }
    }
}
