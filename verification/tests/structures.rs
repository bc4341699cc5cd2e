use framegen::error::CodecError;
use framegen::error::SchemaErrorKind;
use framegen::generate::bitfield::BitField;
use framegen::generate::bitfield::Domain;
use framegen::generate::bitlayout::SlotValue;
use framegen::generate::structlayout::FieldLayout;
use framegen::generate::structlayout::FieldValue;
use framegen::generate::structlayout::Plain;
use framegen::generate::structlayout::PlainValue;
use framegen::generate::structlayout::StructLayout;
use framegen::generate::structure::AlternativeOptions;
use framegen::generate::structure::Alternatives;
use framegen::generate::structure::SimpleStructure;
use framegen::generate::structure::Structure;

fn addr_group() -> AlternativeOptions {
    AlternativeOptions::new("group", &Structure::new("absent"))
        .insert_type(&SimpleStructure::new("short", "addr", 2))
}

fn hdr() -> StructLayout {
    let group = addr_group();
    let alternatives = Alternatives::new().insert(&group);
    Structure::new("hdr")
        .add_u8_field("seq")
        .add_alt_field("addr", &group)
        .compile(&alternatives)
        .unwrap()
}

fn seq(x: u64) -> FieldValue {
    FieldValue::Plain(PlainValue::Int(x))
}

fn absent() -> FieldValue {
    FieldValue::Variant { case: 0, fields: vec![] }
}

fn short(bytes: [u8; 2]) -> FieldValue {
    FieldValue::Variant { case: 1, fields: vec![PlainValue::Bytes(bytes.to_vec())] }
}

fn three_way() -> (StructLayout, Vec<FieldValue>, Vec<FieldValue>, Vec<FieldValue>) {
    let group = AlternativeOptions::new("address", &Structure::new("addr_none"))
        .insert_type(&SimpleStructure::new("addr_short", "address", 2))
        .insert_type(&SimpleStructure::new("addr_extended", "address", 8));
    let alternatives = Alternatives::new().insert(&group);
    let layout = Structure::new("frame")
        .add_u16_field("control")
        .add_u8_field("seq")
        .add_alt_field("dest", &group)
        .compile(&alternatives)
        .unwrap();
    let fixed = vec![seq(0x1234), seq(7)];
    let mut none = fixed.clone();
    none.push(FieldValue::Variant { case: 0, fields: vec![] });
    let mut two = fixed.clone();
    two.push(FieldValue::Variant { case: 1, fields: vec![PlainValue::Bytes(vec![1, 2])] });
    let mut eight = fixed.clone();
    eight.push(
        FieldValue::Variant {
            case: 2,
            fields: vec![PlainValue::Bytes(vec![1, 2, 3, 4, 5, 6, 7, 8])],
        },
    );
    (layout, none, two, eight)
}

#[test]
fn hdr_without_address_is_one_byte() {
    let layout = hdr();
    let values = vec![seq(7), absent()];
    let bytes = layout.encode(&values);
    assert_eq!(bytes, vec![0x07]);
    assert_eq!(layout.selectors_for(&values), vec![0]);
    assert_eq!(layout.decode(&bytes, &[0]), Ok((values, 1)));
}

#[test]
fn hdr_with_short_address_is_three_bytes() {
    let layout = hdr();
    let values = vec![seq(7), short([0xaa, 0xbb])];
    let bytes = layout.encode(&values);
    assert_eq!(bytes, vec![0x07, 0xaa, 0xbb]);
    assert_eq!(layout.selectors_for(&values), vec![1]);
    assert_eq!(layout.decode(&bytes, &[1]), Ok((values, 3)));
}

#[test]
fn decoding_consumes_the_frame_and_leaves_the_rest() {
    let layout = hdr();
    let input = [0x07, 0xaa, 0xbb, 0xcc, 0xdd];
    assert_eq!(layout.decode(&input, &[1]), Ok((vec![seq(7), short([0xaa, 0xbb])], 3)));
    assert_eq!(layout.decode(&input, &[0]), Ok((vec![seq(7), absent()], 1)));
}

#[test]
fn hdr_with_address_announced_but_cut_short_is_truncated() {
    let layout = hdr();
    assert_eq!(layout.decode(&[0x07, 0xaa], &[1]), Err(CodecError::TruncatedInput));
    assert_eq!(layout.decode(&[0x07], &[1]), Err(CodecError::TruncatedInput));
    assert_eq!(layout.decode(&[], &[0]), Err(CodecError::TruncatedInput));
    assert_eq!(layout.decode(&[], &[1]), Err(CodecError::TruncatedInput));
}

#[test]
fn a_discriminant_outside_the_domain_selects_nothing() {
    let layout = hdr();
    assert_eq!(layout.decode(&[0x07, 0xaa, 0xbb], &[2]), Err(CodecError::UnresolvedVariant));
    assert_eq!(layout.decode(&[0x07, 0xaa, 0xbb], &[]), Err(CodecError::UnresolvedVariant));
}

#[test]
fn the_first_field_that_fails_decides() {
    let layout = hdr();
    assert_eq!(layout.decode(&[], &[9]), Err(CodecError::TruncatedInput));
    assert_eq!(layout.decode(&[1], &[9]), Err(CodecError::UnresolvedVariant));
}

#[test]
fn frame_size_follows_the_variant_taken() {
    let (layout, none, two, eight) = three_way();
    assert_eq!(layout.encode(&none).len(), 3);
    assert_eq!(layout.encode(&two).len(), 3 + 2);
    assert_eq!(layout.encode(&eight).len(), 3 + 8);
    assert_eq!(layout.encode(&eight), vec![0x34, 0x12, 7, 1, 2, 3, 4, 5, 6, 7, 8]);
}

#[test]
fn every_variant_round_trips() {
    let (layout, none, two, eight) = three_way();
    for values in [none, two, eight] {
        let mut bytes = layout.encode(&values);
        let used = bytes.len();
        bytes.extend_from_slice(&[0xee, 0xff]);
        let selectors = layout.selectors_for(&values);
        assert_eq!(layout.decode(&bytes, &selectors), Ok((values, used)));
    }
}

#[test]
fn a_three_way_choice_has_three_cases_counted_from_zero() {
    let (layout, _, _, _) = three_way();
    assert_eq!(layout.field_count(), 3);
    match layout.field(2) {
        FieldLayout::Choice { tags, cases } => {
            assert_eq!(tags, &vec![0, 1, 2]);
            assert_eq!(
                cases,
                &vec![vec![], vec![Plain::Bytes(2)], vec![Plain::Bytes(8)]]
            );
        },
        FieldLayout::Plain(_) => panic!("the third field is a choice"),
    }
    assert!(matches!(layout.field(0), FieldLayout::Plain(Plain::Int(2))));
}

#[test]
fn integers_are_written_least_significant_byte_first() {
    let none = Alternatives::new();
    let layout = Structure::new("ints")
        .add_u8_field("a")
        .add_u16_field("b")
        .add_u32_field("c")
        .add_u64_field("d")
        .add_bitfield("e", "flags", 2)
        .add_bytes_field("f", 3)
        .compile(&none)
        .unwrap();
    let values = vec![
        seq(0x01),
        seq(0x0302),
        seq(0x0706_0504),
        seq(0x0f0e_0d0c_0b0a_0908),
        seq(0x1110),
        FieldValue::Plain(PlainValue::Bytes(vec![0x12, 0x13, 0x14])),
    ];
    let bytes = layout.encode(&values);
    assert_eq!(bytes, (1..=0x14).collect::<Vec<u8>>());
    assert_eq!(layout.decode(&bytes, &[]), Ok((values, 20)));
    assert_eq!(layout.decode(&bytes[..19], &[]), Err(CodecError::TruncatedInput));
}

#[test]
fn an_integer_wider_than_its_field_is_cut() {
    let none = Alternatives::new();
    let layout = Structure::new("s").add_u8_field("a").compile(&none).unwrap();
    assert_eq!(layout.encode(&vec![seq(0x1ff)]), vec![0xff]);
}

#[test]
fn the_empty_structure_occupies_nothing() {
    let none = Alternatives::new();
    let layout = Structure::new("nothing").compile(&none).unwrap();
    assert_eq!(layout.field_count(), 0);
    assert_eq!(layout.encode(&vec![]), Vec::<u8>::new());
    assert_eq!(layout.decode(&[1, 2, 3], &[]), Ok((vec![], 0)));
}

#[test]
fn a_bound_selector_gives_zero_to_the_fallback_and_the_rest_in_order() {
    let group = AlternativeOptions::new("address", &Structure::new("addr_none"))
        .insert_type(&SimpleStructure::new("addr_short", "address", 2))
        .insert_type(&SimpleStructure::new("addr_extended", "address", 8))
        .bind_selector(vec![2, 0, 3]);
    assert_eq!(group.group_tags(), vec![0, 2, 3]);
    let alternatives = Alternatives::new().insert(&group);
    let layout = Structure::new("s").add_alt_field("a", &group).compile(&alternatives).unwrap();
    let values = vec![FieldValue::Variant { case: 1, fields: vec![PlainValue::Bytes(vec![9, 8])] }];
    assert_eq!(layout.selectors_for(&values), vec![2]);
    assert_eq!(layout.decode(&[9, 8], &[2]), Ok((values, 2)));
    assert_eq!(layout.decode(&[9, 8], &[1]), Err(CodecError::UnresolvedVariant));
    assert_eq!(
        layout.decode(&[9, 8], &[0]),
        Ok((vec![FieldValue::Variant { case: 0, fields: vec![] }], 0))
    );
}

#[test]
fn a_selector_that_does_not_cover_the_group_is_unresolved() {
    let one = AlternativeOptions::new("address", &Structure::new("addr_none"))
        .insert_type(&SimpleStructure::new("addr_short", "address", 2));
    for domain in [vec![0, 2, 3], vec![0], vec![1, 2], vec![0, 0], vec![]] {
        let e = one.clone().bind_selector(domain).compile().unwrap_err();
        assert_eq!(e.kind, SchemaErrorKind::UnresolvedVariant);
        assert_eq!(e.subject, "address");
    }
    assert!(one.clone().bind_selector(vec![5, 0]).compile().is_ok());
}

#[test]
fn an_alternative_field_needs_its_group() {
    let group = addr_group();
    let other = AlternativeOptions::new("other", &Structure::new("absent"));
    let alternatives = Alternatives::new().insert(&other);
    let e = Structure::new("hdr")
        .add_u8_field("seq")
        .add_alt_field("addr", &group)
        .compile(&alternatives)
        .unwrap_err();
    assert_eq!(e.kind, SchemaErrorKind::UnresolvedVariant);
    assert_eq!(e.subject, "addr");
    assert_eq!(alternatives.find(&"other".to_string()), Some(0));
    assert_eq!(alternatives.find(&"group".to_string()), None);
}

#[test]
fn a_variant_cannot_hold_an_alternative_field() {
    let inner = addr_group();
    let nested = Structure::new("nested").add_alt_field("inner", &inner);
    let e = nested.compile_flat().unwrap_err();
    assert_eq!(e.kind, SchemaErrorKind::UnresolvedVariant);
    assert_eq!(e.subject, "inner");
    let outer = AlternativeOptions::new("outer", &Structure::new("absent")).insert_type(&nested);
    let e = outer.compile().unwrap_err();
    assert_eq!(e.kind, SchemaErrorKind::UnresolvedVariant);
    assert_eq!(e.subject, "inner");
}

#[test]
fn variants_of_one_group_have_different_names() {
    let group = AlternativeOptions::new("g", &Structure::new("same"))
        .insert_type(&SimpleStructure::new("same", "x", 1));
    let e = group.compile().unwrap_err();
    assert_eq!(e.kind, SchemaErrorKind::DuplicateFieldName);
    assert_eq!(e.subject, "same");
}

#[test]
fn fields_of_one_structure_have_different_names() {
    let none = Alternatives::new();
    let e = Structure::new("s")
        .add_u8_field("a")
        .add_u16_field("b")
        .add_bytes_field("a", 4)
        .compile(&none)
        .unwrap_err();
    assert_eq!(e.kind, SchemaErrorKind::DuplicateFieldName);
    assert_eq!(e.subject, "a");
}

#[test]
fn an_embedded_container_is_as_wide_as_an_integer() {
    let none = Alternatives::new();
    let e = Structure::new("s").add_bitfield("flags", "flags", 3).compile(&none).unwrap_err();
    assert_eq!(e.kind, SchemaErrorKind::WidthMismatch);
    assert_eq!(e.subject, "flags");
    let e = Structure::new("s").add_bitfield("flags", "flags", 0).compile(&none).unwrap_err();
    assert_eq!(e.kind, SchemaErrorKind::WidthMismatch);
    let e = Structure::new("s").add_bitfield("flags", "flags", 9).compile(&none).unwrap_err();
    assert_eq!(e.kind, SchemaErrorKind::WidthOverflow);
    assert_eq!(e.kind_name(), "WidthOverflow");
    assert!(Structure::new("s").add_bitfield("flags", "flags", 4).compile(&none).is_ok());
}

#[test]
fn a_defective_group_is_reported_through_the_field_that_names_it() {
    let group = addr_group().bind_selector(vec![0, 1, 2]);
    let alternatives = Alternatives::new().insert(&group);
    let e = Structure::new("hdr").add_alt_field("addr", &group).compile(&alternatives).unwrap_err();
    assert_eq!(e.kind, SchemaErrorKind::UnresolvedVariant);
    assert_eq!(e.subject, "group");
    assert_eq!(e.kind_name(), "UnresolvedVariant");
}

#[test]
fn the_discriminants_decide_the_frame_size() {
    let (layout, none, two, eight) = three_way();
    assert_eq!(layout.size_for(&[0]), Some(3));
    assert_eq!(layout.size_for(&[1]), Some(3 + 2));
    assert_eq!(layout.size_for(&[2]), Some(3 + 8));
    assert_eq!(layout.size_for(&[3]), None);
    assert_eq!(layout.size_for(&[]), None);
    for values in [none, two, eight] {
        let selectors = layout.selectors_for(&values);
        assert_eq!(layout.size_for(&selectors), Some(layout.encode(&values).len()));
    }
    let fixed = Structure::new("s")
        .add_u32_field("a")
        .add_bytes_field("b", 5)
        .compile(&Alternatives::new())
        .unwrap();
    assert_eq!(fixed.size_for(&[]), Some(9));
    assert_eq!(fixed.size_for(&[7, 8]), Some(9));
}

#[test]
fn a_size_beyond_counting_is_not_given() {
    let huge = Structure::new("s")
        .add_bytes_field("a", usize::MAX)
        .add_bytes_field("b", 1)
        .compile(&Alternatives::new())
        .unwrap();
    assert_eq!(huge.size_for(&[]), None);
    assert_eq!(huge.decode(&[1, 2, 3], &[]), Err(CodecError::TruncatedInput));
}

#[test]
fn a_sibling_flag_selects_the_shape_of_the_address() {
    let presence = Domain::new().add_enum_value("present", 1).add_enum_value("absent", 0);
    let group = addr_group().bind_selector(presence.values());
    let flags = BitField::new("flags", "")
        .add_bit_field("addr", "Whether an address follows.", 1, presence)
        .add_reserved(7)
        .compile()
        .unwrap();
    let alternatives = Alternatives::new().insert(&group);
    let frame = Structure::new("frame")
        .add_bitfield("flags", "flags", 1)
        .add_u8_field("seq")
        .add_alt_field("addr", &group)
        .compile(&alternatives)
        .unwrap();

    let input = [0x01, 0x07, 0xaa, 0xbb, 0xcc];
    let (first, next) = frame.field(0).read(&input, 0, None).unwrap();
    assert_eq!(next, 1);
    let raw = match first {
        FieldValue::Plain(PlainValue::Int(raw)) => raw,
        other => panic!("the flags are an integer, not {:?}", other),
    };
    let decoded = flags.decode(raw).unwrap();
    assert_eq!(decoded, vec![SlotValue::Symbol(0)]);
    let selector = flags.slot(0).integer_of(decoded[0]);
    assert_eq!(selector, 1);
    assert_eq!(
        frame.decode(&input, &[selector]),
        Ok((vec![seq(1), seq(7), short([0xaa, 0xbb])], 4))
    );

    let values = vec![seq(flags.encode(&vec![SlotValue::Symbol(1)])), seq(9), absent()];
    assert_eq!(frame.selectors_for(&values), vec![0]);
    assert_eq!(frame.encode(&values), vec![0x00, 0x09]);
    assert_eq!(frame.decode(&[0x00, 0x09], &[0]), Ok((values.clone(), 2)));
    assert_eq!(values.clone(), values);
}
