use framegen::error::CodecError;
use framegen::error::SchemaErrorKind;
use framegen::generate::bitfield::BitField;
use framegen::generate::bitfield::Domain;
use framegen::generate::bitlayout::SlotKind;
use framegen::generate::bitlayout::SlotValue;

fn kind_flag() -> BitField {
    BitField::new("kind_flag", "A kind, a flag and padding.")
        .add_bit_field(
            "kind",
            "The kind.",
            2,
            Domain::new().add_enum_value("A", 0).add_enum_value("B", 1).add_enum_value("C", 2),
        )
        .add_bit_field(
            "flag",
            "The flag.",
            1,
            Domain::new().add_enum_value("off", 0).add_enum_value("on", 1),
        )
        .add_reserved(5)
}

fn nibbles() -> BitField {
    BitField::new("nibbles", "Two numbers and padding between them.")
        .add_bit_field("low", "", 4, Domain::new().numeric())
        .add_reserved(8)
        .add_bit_field("high", "", 4, Domain::new())
}

#[test]
fn kind_flag_packs_into_one_byte() {
    let layout = kind_flag().compile().unwrap();
    assert_eq!(layout.bits(), 8);
    assert_eq!(layout.slot_count(), 3);
    assert_eq!(layout.named_count(), 2);
    assert_eq!(layout.slot(0).offset, 0);
    assert_eq!(layout.slot(0).width, 2);
    assert_eq!(layout.slot(1).offset, 2);
    assert_eq!(layout.slot(1).width, 1);
    assert_eq!(layout.slot(2).offset, 3);
    assert_eq!(layout.slot(2).width, 5);
    assert!(matches!(layout.slot(2).kind, SlotKind::Reserved));
}

#[test]
fn slot_widths_add_up_to_the_container_width() {
    for schema in [kind_flag(), nibbles()] {
        let layout = schema.compile().unwrap();
        let mut sum = 0;
        for i in 0..layout.slot_count() {
            assert_eq!(layout.slot(i).offset, sum);
            sum += layout.slot(i).width;
        }
        assert_eq!(sum, layout.bits());
    }
}

#[test]
fn kind_b_flag_on_has_kind_in_bits_0_and_1_and_flag_in_bit_2() {
    let layout = kind_flag().compile().unwrap();
    let raw = layout.encode(&vec![SlotValue::Symbol(1), SlotValue::Symbol(1)]);
    assert_eq!(raw & 0b11, 1);
    assert_eq!((raw >> 2) & 1, 1);
    assert_eq!(raw >> 3, 0);
    assert_eq!(raw, 0b0000_0101);
    assert_eq!(layout.decode(raw), Ok(vec![SlotValue::Symbol(1), SlotValue::Symbol(1)]));
}

#[test]
fn every_kind_and_flag_round_trips() {
    let layout = kind_flag().compile().unwrap();
    for kind in 0..3 {
        for flag in 0..2 {
            let values = vec![SlotValue::Symbol(kind), SlotValue::Symbol(flag)];
            let raw = layout.encode(&values);
            assert_eq!(raw, (kind as u64) | ((flag as u64) << 2));
            assert_eq!(layout.decode(raw), Ok(values));
        }
    }
}

#[test]
fn undeclared_kind_fails_to_decode() {
    let layout = kind_flag().compile().unwrap();
    assert_eq!(layout.decode(0b0000_0011), Err(CodecError::UndeclaredDiscriminant));
    assert_eq!(layout.decode(0b0000_0111), Err(CodecError::UndeclaredDiscriminant));
}

#[test]
fn reserved_garbage_is_ignored_and_overwritten() {
    let layout = kind_flag().compile().unwrap();
    assert_eq!(layout.decode(0b1111_1101), Ok(vec![SlotValue::Symbol(1), SlotValue::Symbol(1)]));
    let mut container: u64 = 0xffff_ffff_ffff_ffff;
    layout.write(&mut container, &vec![SlotValue::Symbol(2), SlotValue::Symbol(0)]);
    assert_eq!(container, 0b0000_0010);
}

#[test]
fn numbers_land_at_their_offsets() {
    let layout = nibbles().compile().unwrap();
    assert_eq!(layout.bits(), 16);
    let raw = layout.encode(&vec![SlotValue::Number(0x5), SlotValue::Number(0xa)]);
    assert_eq!(raw, 0xa005);
    assert_eq!(layout.decode(0xaff5), Ok(vec![SlotValue::Number(0x5), SlotValue::Number(0xa)]));
}

#[test]
fn a_number_wider_than_its_slot_is_cut() {
    let layout = nibbles().compile().unwrap();
    let raw = layout.encode(&vec![SlotValue::Number(0x1f), SlotValue::Number(0xffff)]);
    assert_eq!(raw, 0xf00f);
}

#[test]
fn symbols_stand_for_their_declared_integers() {
    let schema = BitField::new("sparse", "")
        .add_bit_field(
            "mode",
            "",
            8,
            Domain::new()
                .add_enum_value("one", 1)
                .add_enum_value_desc("zero", "Nothing.", 0)
                .add_enum_value("top", 0x80),
        );
    let layout = schema.compile().unwrap();
    assert_eq!(layout.encode(&vec![SlotValue::Symbol(0)]), 1);
    assert_eq!(layout.encode(&vec![SlotValue::Symbol(1)]), 0);
    assert_eq!(layout.encode(&vec![SlotValue::Symbol(2)]), 0x80);
    assert_eq!(layout.decode(0x80), Ok(vec![SlotValue::Symbol(2)]));
    assert_eq!(layout.decode(0), Ok(vec![SlotValue::Symbol(1)]));
    assert_eq!(layout.decode(2), Err(CodecError::UndeclaredDiscriminant));
    assert_eq!(layout.slot(0).integer_of(SlotValue::Symbol(2)), 0x80);
    assert_eq!(layout.slot(0).value_of(1), Some(SlotValue::Symbol(0)));
    assert_eq!(layout.slot(0).value_of(3), None);
}

#[test]
fn a_single_slot_can_fill_sixty_four_bits() {
    let schema = BitField::new("wide", "").add_bit_field("all", "", 64, Domain::new());
    let layout = schema.compile().unwrap();
    assert_eq!(layout.bits(), 64);
    let raw = layout.encode(&vec![SlotValue::Number(0xdead_beef_0123_4567)]);
    assert_eq!(raw, 0xdead_beef_0123_4567);
    assert_eq!(layout.decode(raw), Ok(vec![SlotValue::Number(0xdead_beef_0123_4567)]));
}

#[test]
fn a_slot_without_bits_holds_zero() {
    let schema = BitField::new("odd", "")
        .add_bit_field("nothing", "", 0, Domain::new())
        .add_bit_field("all", "", 8, Domain::new());
    let layout = schema.compile().unwrap();
    let raw = layout.encode(&vec![SlotValue::Number(9), SlotValue::Number(0x42)]);
    assert_eq!(raw, 0x42);
    assert_eq!(layout.decode(raw), Ok(vec![SlotValue::Number(0), SlotValue::Number(0x42)]));
}

#[test]
fn width_short_of_a_container_is_a_mismatch() {
    let e = BitField::new("short", "").add_reserved(7).compile().unwrap_err();
    assert_eq!(e.kind, SchemaErrorKind::WidthMismatch);
    assert_eq!(e.subject, "short");
    assert_eq!(e.kind_name(), "WidthMismatch");
    let e = BitField::new("empty", "").compile().unwrap_err();
    assert_eq!(e.kind, SchemaErrorKind::WidthMismatch);
    let e = BitField::new("between", "").add_reserved(16).add_reserved(8).compile().unwrap_err();
    assert_eq!(e.kind, SchemaErrorKind::WidthMismatch);
}

#[test]
fn width_beyond_sixty_four_bits_is_an_overflow() {
    let e = BitField::new("long", "").add_reserved(64).add_reserved(1).compile().unwrap_err();
    assert_eq!(e.kind, SchemaErrorKind::WidthOverflow);
    assert_eq!(e.subject, "long");
    let e = BitField::new("huge", "")
        .add_reserved(u64::MAX)
        .add_reserved(u64::MAX)
        .compile()
        .unwrap_err();
    assert_eq!(e.kind, SchemaErrorKind::WidthOverflow);
}

#[test]
fn a_repeated_slot_name_is_reported_by_the_name() {
    let e = BitField::new("twice", "")
        .add_bit_field("a", "", 4, Domain::new())
        .add_reserved(1)
        .add_bit_field("a", "", 3, Domain::new())
        .compile()
        .unwrap_err();
    assert_eq!(e.kind, SchemaErrorKind::DuplicateFieldName);
    assert_eq!(e.subject, "a");
    assert_eq!(e.kind_name(), "DuplicateFieldName");
}

#[test]
fn a_repeated_symbol_or_integer_is_reported_by_the_slot() {
    let e = BitField::new("c", "")
        .add_bit_field(
            "mode",
            "",
            8,
            Domain::new().add_enum_value("x", 0).add_enum_value("x", 1),
        )
        .compile()
        .unwrap_err();
    assert_eq!(e.kind, SchemaErrorKind::DuplicateEnumValue);
    assert_eq!(e.subject, "mode");
    let e = BitField::new("c", "")
        .add_bit_field(
            "mode",
            "",
            8,
            Domain::new().add_enum_value("x", 5).add_enum_value("y", 5),
        )
        .compile()
        .unwrap_err();
    assert_eq!(e.kind, SchemaErrorKind::DuplicateEnumValue);
    assert_eq!(e.subject, "mode");
}

#[test]
fn an_integer_too_wide_for_its_slot_is_reported_by_the_slot() {
    let e = BitField::new("c", "")
        .add_bit_field("pad", "", 6, Domain::new())
        .add_bit_field(
            "mode",
            "",
            2,
            Domain::new().add_enum_value("x", 3).add_enum_value("y", 4),
        )
        .compile()
        .unwrap_err();
    assert_eq!(e.kind, SchemaErrorKind::EnumValueOutOfRange);
    assert_eq!(e.subject, "mode");
    assert_eq!(e.kind_name(), "EnumValueOutOfRange");
}

#[test]
fn the_first_defective_slot_decides_and_widths_come_last() {
    let e = BitField::new("c", "")
        .add_bit_field(
            "first",
            "",
            1,
            Domain::new().add_enum_value("x", 2).add_enum_value("x", 0),
        )
        .add_bit_field("first", "", 70, Domain::new())
        .compile()
        .unwrap_err();
    assert_eq!(e.kind, SchemaErrorKind::EnumValueOutOfRange);
    assert_eq!(e.subject, "first");
    let e = BitField::new("c", "")
        .add_bit_field("first", "", 1, Domain::new())
        .add_bit_field("first", "", 70, Domain::new())
        .compile()
        .unwrap_err();
    assert_eq!(e.kind, SchemaErrorKind::DuplicateFieldName);
}

#[test]
fn numeric_drops_declared_symbols() {
    let schema = BitField::new("c", "")
        .add_bit_field("n", "", 8, Domain::new().add_enum_value("x", 900).numeric());
    let layout = schema.compile().unwrap();
    assert!(matches!(layout.slot(0).kind, SlotKind::Numeric));
    assert_eq!(layout.decode(0x17), Ok(vec![SlotValue::Number(0x17)]));
}
