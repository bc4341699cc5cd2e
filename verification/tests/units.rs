use framegen::error::SchemaErrorKind;
use framegen::file::Declaration;
use framegen::file::GenFile;
use framegen::generate::bitfield::BitField;
use framegen::generate::bitfield::Domain;
use framegen::generate::structure::AlternativeOptions;
use framegen::generate::structure::Alternatives;
use framegen::generate::structure::SimpleStructure;
use framegen::generate::structure::Structure;
use framegen::generate::bitlayout::SlotValue;
use framegen::render_beacon;
use framegen::render_mac;
use framegen::render_frame_control;
use framegen::render_ie_control;
use framegen::render_mac_command;
use framegen::render_security::render_auxiliary_security_header;
use framegen::render_security::render_security_control;
use framegen::run;

#[test]
fn run_gives_every_unit_in_order() {
    let units = run().unwrap();
    let paths: Vec<&str> = units.iter().map(|u| u.path.as_str()).collect();
    assert_eq!(
        paths,
        vec![
            "out/frame_control.rs",
            "out/mac_frame.rs",
            "out/ie_control.rs",
            "out/security_control.rs",
            "out/auxiliary_security_header.rs",
            "out/beacon/superframe.rs",
            "out/beacon/gts_specification.rs",
            "out/beacon/gts_directions.rs",
            "out/beacon/gts_descriptor_config.rs",
            "out/beacon/gts_descriptor.rs",
            "out/beacon/gts_info.rs",
            "out/beacon/pending_address_specifications.rs",
            "out/mac_command/command_id.rs",
            "out/mac_command/assoc_request_capability.rs",
            "out/mac_command/assoc_status.rs",
            "out/mac_command/commands.rs",
        ]
    );
}

#[test]
fn the_beacon_has_seven_units_and_the_commands_four() {
    assert_eq!(render_beacon::render().unwrap().len(), 7);
    assert_eq!(render_mac_command::render().unwrap().len(), 4);
    assert_eq!(render_beacon::render_superframe().unwrap().path, "out/beacon/superframe.rs");
    assert_eq!(render_beacon::render_gts_info().unwrap().declarations.len(), 5);
    assert_eq!(render_beacon::render_gts_specification().unwrap().declarations.len(), 4);
    assert_eq!(render_beacon::render_gts_direction().unwrap().declarations.len(), 2);
    assert_eq!(render_beacon::render_gts_descriptor_config().unwrap().declarations.len(), 3);
    assert_eq!(render_beacon::render_gts_descriptor().unwrap().declarations.len(), 2);
    assert_eq!(render_beacon::render_pending_address_spec().unwrap().declarations.len(), 3);
    assert_eq!(render_mac_command::render_mac_command_id().unwrap().declarations.len(), 3);
    assert_eq!(
        render_mac_command::render_association_request_capability().unwrap().declarations.len(),
        13
    );
    assert_eq!(render_mac_command::render_association_status().unwrap().declarations.len(), 3);
    assert_eq!(render_mac_command::render_commands().unwrap().declarations.len(), 2);
    assert_eq!(render_security_control().unwrap().declarations.len(), 9);
    assert_eq!(render_ie_control().unwrap().declarations.len(), 6);
}

#[test]
fn frame_control_is_sixteen_bits_with_its_slots_in_order() {
    let unit = render_frame_control().unwrap();
    assert_eq!(unit.path, "out/frame_control.rs");
    assert_eq!(unit.declarations.len(), 1 + 2 * 10);
    match &unit.declarations[0] {
        Declaration::Container { name, bits, .. } => {
            assert_eq!(name, "Frame_control");
            assert_eq!(*bits, 16);
        },
        other => panic!("the first declaration is the container, not {:?}", other),
    }
    match &unit.declarations[1] {
        Declaration::Symbols { container, slot, symbols } => {
            assert_eq!(container, "Frame_control");
            assert_eq!(slot, "Frame_type");
            assert_eq!(symbols.len(), 8);
            assert_eq!(symbols[3].name, "MAC_command");
            assert_eq!(symbols[3].value, 3);
            assert_eq!(symbols[3].description, None);
        },
        other => panic!("the second declaration is the symbols, not {:?}", other),
    }
    let mut offsets = Vec::new();
    for declaration in &unit.declarations {
        if let Declaration::Slot { slot, offset, width, symbolic, .. } = declaration {
            assert!(*symbolic);
            offsets.push((slot.as_str(), *offset, *width));
        }
    }
    assert_eq!(
        offsets,
        vec![
            ("Frame_type", 0, 3),
            ("Security_enabled", 3, 1),
            ("Frame_pending", 4, 1),
            ("Ack_request", 5, 1),
            ("PAN_Compression", 6, 1),
            ("Seq_nr_suppression", 8, 1),
            ("IE_Present", 9, 1),
            ("Dest_addr_mode", 10, 2),
            ("Frame_version", 12, 2),
            ("Source_addr_mode", 14, 2),
        ]
    );
}

#[test]
fn the_mac_header_unit_declares_shapes_then_groups_then_the_header() {
    let unit = render_mac().unwrap();
    assert_eq!(unit.declarations.len(), 9);
    assert!(matches!(unit.declarations[0], Declaration::Imports));
    let names: Vec<&str> = unit
        .declarations
        .iter()
        .filter_map(|d| match d {
            Declaration::Record { schema } => Some(schema.name.as_str()),
            _ => None,
        })
        .collect();
    assert_eq!(
        names,
        vec!["addr_none", "addr_short", "addr_extended", "pan_none", "pan_short", "mhr"]
    );
    match &unit.declarations[6] {
        Declaration::Variants { name, cases, tags } => {
            assert_eq!(name, "address");
            assert_eq!(cases, &vec!["addr_none", "addr_short", "addr_extended"]);
            assert_eq!(tags, &vec![0, 1, 2]);
        },
        other => panic!("the seventh declaration is the address group, not {:?}", other),
    }
    match &unit.declarations[7] {
        Declaration::Variants { name, cases, tags } => {
            assert_eq!(name, "panid");
            assert_eq!(cases.len(), 2);
            assert_eq!(tags, &vec![0, 1]);
        },
        other => panic!("the eighth declaration is the PAN group, not {:?}", other),
    }
}

#[test]
fn the_security_header_has_a_group_of_four_key_identifiers() {
    let unit = render_auxiliary_security_header().unwrap();
    assert_eq!(unit.path, "out/auxiliary_security_header.rs");
    assert_eq!(unit.declarations.len(), 10);
    match &unit.declarations[8] {
        Declaration::Variants { name, cases, tags } => {
            assert_eq!(name, "key_identifier");
            assert_eq!(cases, &vec!["key_id_none", "key_id_only", "key_id_short", "key_id_long"]);
            assert_eq!(tags, &vec![0, 1, 2, 3]);
        },
        other => panic!("the ninth declaration is the key identifier group, not {:?}", other),
    }
}

#[test]
fn a_defective_container_adds_nothing() {
    let mut file = GenFile::new();
    file.add_struct_imports();
    let bad = BitField::new("bad", "").add_bit_field("x", "", 9, Domain::new());
    let e = file.add_bitfield(&bad).unwrap_err();
    assert_eq!(e.kind, SchemaErrorKind::WidthMismatch);
    assert_eq!(file.declarations.len(), 1);
    let good = BitField::new("good", "").add_bit_field("x", "", 8, Domain::new());
    let layout = file.add_bitfield(&good).unwrap();
    assert_eq!(layout.encode(&vec![SlotValue::Number(0x17)]), 0x17);
    assert_eq!(file.declarations.len(), 3);
    let unit = file.into_unit("out/x.rs");
    assert_eq!(unit.path, "out/x.rs");
    assert_eq!(unit.declarations.len(), 3);
}

#[test]
fn a_defective_group_adds_none_of_the_groups() {
    let good = AlternativeOptions::new("good", &Structure::new("none"))
        .insert_type(&SimpleStructure::new("some", "x", 1));
    let bad = AlternativeOptions::new("bad", &Structure::new("none"))
        .insert_type(&Structure::new("none"));
    let mut file = GenFile::new();
    let e = file.add_alternatives(&Alternatives::new().insert(&good).insert(&bad)).unwrap_err();
    assert_eq!(e.kind, SchemaErrorKind::DuplicateFieldName);
    assert_eq!(e.subject, "none");
    assert_eq!(file.declarations.len(), 0);
    file.add_alternatives(&Alternatives::new().insert(&good)).unwrap();
    assert_eq!(file.declarations.len(), 1);
}

#[test]
fn a_defective_structure_adds_nothing() {
    let mut file = GenFile::new();
    let twice = Structure::new("s").add_u8_field("a").add_u8_field("a");
    assert_eq!(file.add_struct(&twice).unwrap_err().kind, SchemaErrorKind::DuplicateFieldName);
    let group = AlternativeOptions::new("g", &Structure::new("none"));
    let with_alt = Structure::new("t").add_alt_field("a", &group);
    assert_eq!(file.add_struct(&with_alt).unwrap_err().kind, SchemaErrorKind::UnresolvedVariant);
    let none = Alternatives::new();
    assert_eq!(
        file.add_struct_with_alts(&with_alt, &none).unwrap_err().kind,
        SchemaErrorKind::UnresolvedVariant
    );
    assert_eq!(file.declarations.len(), 0);
    file.add_struct_with_alts(&with_alt, &Alternatives::new().insert(&group)).unwrap();
    file.add_struct_simple(&SimpleStructure::new("simple", "x", 3)).unwrap();
    assert_eq!(file.declarations.len(), 2);
}
