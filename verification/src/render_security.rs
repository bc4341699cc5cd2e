//! The security fields of a frame.
use vstd::prelude::*;
use crate::bits::lemma_low_mask_values;
use crate::error::SchemaError;
use crate::file::DeclarationView;
use crate::file::GenFile;
use crate::file::OutputUnit;
use crate::file::OutputUnitView;
use crate::file::first_group_defect;
use crate::file::group_declarations;
use crate::generate::bitfield::BitField;
use crate::generate::bitfield::BitFieldView;
use crate::generate::bitfield::Domain;
use crate::generate::bitfield::DomainView;
use crate::generate::bitfield::width_before;
use crate::generate::structure::AlternativeOptions;
use crate::generate::structure::Alternatives;
use crate::generate::structure::GroupView;
use crate::generate::structure::SimpleStructure;
use crate::generate::structure::Structure;
use crate::generate::structure::StructureView;
use crate::generate::structure::first_case_defect;
use crate::generate::structure::first_field_defect;
use crate::generate::structure::first_flat_defect;
use crate::generate::structure::group_named;

verus! {

/// The schema of the security control field.
pub open spec fn security_control_schema() -> BitFieldView {
    BitFieldView::empty(
        "Security_control"@,
        "This field provides information about what protection is applied to the frame."@,
    )
        .named(
            "Security_level"@,
            "Indicates the actual frame protection that is provided"@,
            3,
            DomainView::Numeric
                .described("NONE"@, "Security level 0, no encryption."@, 0)
                .described(
                    "MIC_32"@,
                    "Security level 1, uses a 4 byte MIC for data authenticity."@,
                    1,
                )
                .described(
                    "MIC_64"@,
                    "Security level 2, uses an 8 byte MIC for data authenticity."@,
                    2,
                )
                .described(
                    "MIC_128"@,
                    "Security level 3, uses a 16 byte MIC for data authenticity."@,
                    3,
                )
                .described(
                    "ENC_MIC_32"@,
                    "Security level 5, uses a 4 byte MIC for data encryption."@,
                    5,
                )
                .described(
                    "ENC_MIC_64"@,
                    "Security level 6, uses an 8 byte MIC for data encryption."@,
                    6,
                )
                .described(
                    "ENC_MIC_128"@,
                    "Security level 7, uses a 16 byte MIC for data encryption."@,
                    7,
                ),
        )
        .named(
            "Key_identifier_mode"@,
            "Specifies whether the key that is used to protect the frame can be derived implicitly or explicitly."@,
            2,
            DomainView::Numeric
                .described("implicit"@, "Key is determined implicitly."@, 0)
                .described("key_index"@, "Key is determined from the key index field."@, 1)
                .described(
                    "Key_source_4"@,
                    "Key is determined explicitly from the 4-octet key source and key index fields."@,
                    2,
                )
                .described(
                    "Key_source_8"@,
                    "Key is determined explicitly from the 8-octet key source and key index fields."@,
                    3,
                ),
        )
        .named(
            "Frame_counter_suppresion"@,
            "Specifies if the frame counter should be suppressed from the frame."@,
            1,
            DomainView::Numeric
                .described("present"@, "The frame counter is included in the frame."@, 0)
                .described("suppressed"@, "The frame counter is suppressed from the frame."@, 1),
        )
        .named(
            "ASN_in_nonce"@,
            "Specifies if the absolute number slot (ASN) is used to generate the Nonce."@,
            1,
            DomainView::Numeric
                .described(
                    "frame_counter_nonce"@,
                    "The frame counter is used to generate the Nonce."@,
                    0,
                )
                .described("asn_nonce"@, "The ASN is used to generate the Nonce."@, 1),
        )
        .reserved(1)
}

/// The unit that declares the security control field.
pub open spec fn security_control_unit() -> OutputUnitView {
    OutputUnitView {
        path: "out/security_control.rs"@,
        declarations: security_control_schema().declarations(),
    }
}

/// The schema of the security control field is valid: its names are told apart
/// by their lengths and characters, its symbols fit their slots, and its slots
/// fill a container exactly.
pub proof fn lemma_security_control_valid()
    ensures
        security_control_schema().valid(),
{
    reveal_with_fuel(width_before, 6);
    lemma_low_mask_values();
    reveal_strlit("Security_level");
    reveal_strlit("Key_identifier_mode");
    reveal_strlit("Frame_counter_suppresion");
    reveal_strlit("ASN_in_nonce");
    reveal_strlit("NONE");
    reveal_strlit("MIC_32");
    reveal_strlit("MIC_64");
    reveal_strlit("MIC_128");
    reveal_strlit("ENC_MIC_32");
    reveal_strlit("ENC_MIC_64");
    reveal_strlit("ENC_MIC_128");
    reveal_strlit("implicit");
    reveal_strlit("key_index");
    reveal_strlit("Key_source_4");
    reveal_strlit("Key_source_8");
    reveal_strlit("present");
    reveal_strlit("suppressed");
    reveal_strlit("frame_counter_nonce");
    reveal_strlit("asn_nonce");
    assert("Security_level"@.len() == 14);
    assert("Key_identifier_mode"@.len() == 19);
    assert("Frame_counter_suppresion"@.len() == 24);
    assert("ASN_in_nonce"@.len() == 12);
    assert("NONE"@.len() == 4);
    assert("MIC_32"@.len() == 6);
    assert("MIC_64"@.len() == 6);
    assert("MIC_128"@.len() == 7);
    assert("ENC_MIC_32"@.len() == 10);
    assert("ENC_MIC_64"@.len() == 10);
    assert("ENC_MIC_128"@.len() == 11);
    assert("implicit"@.len() == 8);
    assert("key_index"@.len() == 9);
    assert("Key_source_4"@.len() == 12);
    assert("Key_source_8"@.len() == 12);
    assert("present"@.len() == 7);
    assert("suppressed"@.len() == 10);
    assert("frame_counter_nonce"@.len() == 19);
    assert("asn_nonce"@.len() == 9);
    assert("MIC_32"@[4] == '3');
    assert("MIC_64"@[4] == '6');
    assert("ENC_MIC_32"@[8] == '3');
    assert("ENC_MIC_64"@[8] == '6');
    assert("Key_source_4"@[11] == '4');
    assert("Key_source_8"@[11] == '8');
}

/// Builds and compiles the schema of the security control field, and returns
/// the unit that declares it.
pub fn render_security_control() -> (r: Result<OutputUnit, SchemaError>)
    ensures
        r is Ok,
        r->Ok_0@ == security_control_unit(),
{
    let mut genfile = GenFile::new();
    let bitfield = BitField::new(
        "Security_control",
        "This field provides information about what protection is applied to the frame.",
    )
        .add_bit_field(
            "Security_level",
            "Indicates the actual frame protection that is provided",
            3,
            Domain::new()
                .add_enum_value_desc("NONE", "Security level 0, no encryption.", 0)
                .add_enum_value_desc(
                    "MIC_32",
                    "Security level 1, uses a 4 byte MIC for data authenticity.",
                    1,
                )
                .add_enum_value_desc(
                    "MIC_64",
                    "Security level 2, uses an 8 byte MIC for data authenticity.",
                    2,
                )
                .add_enum_value_desc(
                    "MIC_128",
                    "Security level 3, uses a 16 byte MIC for data authenticity.",
                    3,
                )
                .add_enum_value_desc(
                    "ENC_MIC_32",
                    "Security level 5, uses a 4 byte MIC for data encryption.",
                    5,
                )
                .add_enum_value_desc(
                    "ENC_MIC_64",
                    "Security level 6, uses an 8 byte MIC for data encryption.",
                    6,
                )
                .add_enum_value_desc(
                    "ENC_MIC_128",
                    "Security level 7, uses a 16 byte MIC for data encryption.",
                    7,
                ),
        )
        .add_bit_field(
            "Key_identifier_mode",
            "Specifies whether the key that is used to protect the frame can be derived implicitly or explicitly.",
            2,
            Domain::new()
                .add_enum_value_desc("implicit", "Key is determined implicitly.", 0)
                .add_enum_value_desc("key_index", "Key is determined from the key index field.", 1)
                .add_enum_value_desc(
                    "Key_source_4",
                    "Key is determined explicitly from the 4-octet key source and key index fields.",
                    2,
                )
                .add_enum_value_desc(
                    "Key_source_8",
                    "Key is determined explicitly from the 8-octet key source and key index fields.",
                    3,
                ),
        )
        .add_bit_field(
            "Frame_counter_suppresion",
            "Specifies if the frame counter should be suppressed from the frame.",
            1,
            Domain::new()
                .add_enum_value_desc("present", "The frame counter is included in the frame.", 0)
                .add_enum_value_desc(
                    "suppressed",
                    "The frame counter is suppressed from the frame.",
                    1,
                ),
        )
        .add_bit_field(
            "ASN_in_nonce",
            "Specifies if the absolute number slot (ASN) is used to generate the Nonce.",
            1,
            Domain::new()
                .add_enum_value_desc(
                    "frame_counter_nonce",
                    "The frame counter is used to generate the Nonce.",
                    0,
                )
                .add_enum_value_desc("asn_nonce", "The ASN is used to generate the Nonce.", 1),
        )
        .add_reserved(1);
    proof {
        lemma_security_control_valid();
    }
    match genfile.add_bitfield(&bitfield) {
        Ok(_) => {
            assert(genfile@ =~= security_control_schema().declarations());
            Ok(genfile.into_unit("out/security_control.rs"))
        },
        Err(e) => Err(e),
    }
}

/// The shape of the frame counter when it is suppressed: nothing.
pub open spec fn frame_counter_none() -> StructureView {
    StructureView::empty("frame_counter_none"@)
}

/// The shape of the frame counter when it is present: four bytes.
pub open spec fn frame_counter_present() -> StructureView {
    StructureView::simple("frame_counter_present"@, "frame_counter"@, 4)
}

/// The shapes that the frame counter can take.
pub open spec fn frame_counter_options() -> GroupView {
    GroupView::new("frame_counter_type"@, frame_counter_none()).with_variant(
        frame_counter_present(),
    )
}

/// The shape of the key identifier when the key is implicit: nothing.
pub open spec fn key_id_none() -> StructureView {
    StructureView::empty("key_id_none"@)
}

/// The shape of the key identifier that holds a key index only.
pub open spec fn key_id_only() -> StructureView {
    StructureView::simple("key_id_only"@, "key_id"@, 1)
}

/// The shape of the key identifier with a key source of four bytes.
pub open spec fn key_id_short() -> StructureView {
    StructureView::empty("key_id_short"@).fixed_int("key_source_1"@, 4).fixed_int("key_id_1"@, 1)
}

/// The shape of the key identifier with a key source of eight bytes.
pub open spec fn key_id_long() -> StructureView {
    StructureView::empty("key_id_long"@).fixed_int("key_source_2"@, 8).fixed_int("key_id_2"@, 1)
}

/// The shapes that the key identifier can take.
pub open spec fn key_id_options() -> GroupView {
    GroupView::new("key_identifier"@, key_id_none()).with_variant(key_id_only()).with_variant(
        key_id_short(),
    ).with_variant(key_id_long())
}

/// The variant groups of the auxiliary security header.
pub open spec fn auxiliary_security_header_alternatives() -> Seq<GroupView> {
    Seq::empty().push(frame_counter_options()).push(key_id_options())
}

/// The auxiliary security header: the security control field, then the frame
/// counter and the key identifier in the shapes that it announces.
pub open spec fn auxiliary_security_header() -> StructureView {
    StructureView::empty("Auxiliary_security_header"@).bitfield(
        "security_control"@,
        "security_control"@,
        1,
    ).alternative("frame_counter"@, "frame_counter_type"@).alternative(
        "key_id"@,
        "key_identifier"@,
    )
}

/// The unit that declares the auxiliary security header.
pub open spec fn auxiliary_security_header_unit() -> OutputUnitView {
    OutputUnitView {
        path: "out/auxiliary_security_header.rs"@,
        declarations: (Seq::empty().push(DeclarationView::Imports).push(
            DeclarationView::Record { schema: frame_counter_none() },
        ).push(DeclarationView::Record { schema: frame_counter_present() }).push(
            DeclarationView::Record { schema: key_id_none() },
        ).push(DeclarationView::Record { schema: key_id_only() }).push(
            DeclarationView::Record { schema: key_id_short() },
        ).push(DeclarationView::Record { schema: key_id_long() }) + group_declarations(
            auxiliary_security_header_alternatives(),
            2,
        )).push(DeclarationView::Record { schema: auxiliary_security_header() }),
    }
}

/// The shapes of the frame counter and of the key identifier are sound
/// structures of fixed shape.
pub proof fn lemma_security_shapes_sound()
    ensures
        frame_counter_none().flat_defect() is None,
        frame_counter_present().flat_defect() is None,
        key_id_none().flat_defect() is None,
        key_id_only().flat_defect() is None,
        key_id_short().flat_defect() is None,
        key_id_long().flat_defect() is None,
{
    reveal_with_fuel(first_flat_defect, 3);
    reveal_strlit("key_source_1");
    reveal_strlit("key_id_1");
    reveal_strlit("key_source_2");
    reveal_strlit("key_id_2");
    assert("key_source_1"@.len() == 12);
    assert("key_id_1"@.len() == 8);
    assert("key_source_2"@.len() == 12);
    assert("key_id_2"@.len() == 8);
}

/// The groups and the structure of the auxiliary security header are sound.
pub proof fn lemma_auxiliary_security_header_sound()
    ensures
        first_group_defect(auxiliary_security_header_alternatives(), 0) is None,
        auxiliary_security_header().defect(auxiliary_security_header_alternatives()) is None,
{
    lemma_security_shapes_sound();
    reveal_with_fuel(first_case_defect, 5);
    reveal_with_fuel(first_group_defect, 3);
    reveal_with_fuel(first_field_defect, 4);
    reveal_with_fuel(group_named, 3);
    reveal_strlit("frame_counter_none");
    reveal_strlit("frame_counter_present");
    reveal_strlit("key_id_none");
    reveal_strlit("key_id_only");
    reveal_strlit("key_id_short");
    reveal_strlit("key_id_long");
    reveal_strlit("security_control");
    reveal_strlit("frame_counter");
    reveal_strlit("key_id");
    reveal_strlit("frame_counter_type");
    reveal_strlit("key_identifier");
    assert("frame_counter_none"@.len() == 18);
    assert("frame_counter_present"@.len() == 21);
    assert("key_id_none"@.len() == 11);
    assert("key_id_only"@.len() == 11);
    assert("key_id_short"@.len() == 12);
    assert("key_id_long"@.len() == 11);
    assert("security_control"@.len() == 16);
    assert("frame_counter"@.len() == 13);
    assert("key_id"@.len() == 6);
    assert("frame_counter_type"@.len() == 18);
    assert("key_identifier"@.len() == 14);
    assert("key_id_none"@[7] == 'n');
    assert("key_id_only"@[7] == 'o');
    assert("key_id_long"@[7] == 'l');
}

/// Builds and compiles the auxiliary security header with the shapes that its
/// frame counter and key identifier can take, and returns the unit that
/// declares them.
pub fn render_auxiliary_security_header() -> (r: Result<OutputUnit, SchemaError>)
    ensures
        r is Ok,
        r->Ok_0@ == auxiliary_security_header_unit(),
{
    let mut genfile = GenFile::new();
    genfile.add_struct_imports();
    let frame_counter_none = Structure::new("frame_counter_none");
    let frame_counter_present = SimpleStructure::new(
        "frame_counter_present",
        "frame_counter",
        4,
    );
    proof {
        lemma_security_shapes_sound();
        lemma_auxiliary_security_header_sound();
    }
    genfile.add_struct(&frame_counter_none)?;
    genfile.add_struct_simple(&frame_counter_present)?;
    let frame_counter = AlternativeOptions::new(
        "frame_counter_type",
        &frame_counter_none,
    ).insert_type(&frame_counter_present);
    let key_id_none = Structure::new("key_id_none");
    let key_id_only = SimpleStructure::new("key_id_only", "key_id", 1);
    let key_id_short = Structure::new("key_id_short").add_u32_field("key_source_1").add_u8_field(
        "key_id_1",
    );
    let key_id_long = Structure::new("key_id_long").add_u64_field("key_source_2").add_u8_field(
        "key_id_2",
    );
    genfile.add_struct(&key_id_none)?;
    genfile.add_struct_simple(&key_id_only)?;
    genfile.add_struct(&key_id_short)?;
    genfile.add_struct(&key_id_long)?;
    let key_id = AlternativeOptions::new("key_identifier", &key_id_none).insert_type(
        &key_id_only,
    ).insert_type(&key_id_short).insert_type(&key_id_long);
    let alternatives = Alternatives::new().insert(&frame_counter).insert(&key_id);
    genfile.add_alternatives(&alternatives)?;
    let structure = Structure::new("Auxiliary_security_header").add_bitfield(
        "security_control",
        "security_control",
        1,
    ).add_alt_field("frame_counter", &frame_counter).add_alt_field("key_id", &key_id);
    genfile.add_struct_with_alts(&structure, &alternatives)?;
    Ok(genfile.into_unit("out/auxiliary_security_header.rs"))
}

} // verus!
