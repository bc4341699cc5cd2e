//! Schema-driven generation of bit-exact frame codecs.
//!
//! A schema describes a wire format in two layers: bit containers, which pack
//! named and reserved sub-byte slots into one fixed-width integer, and byte
//! structures, which concatenate fixed fields, embedded containers and fields
//! whose shape is chosen by a discriminant decoded elsewhere. Compiling a
//! schema validates it and yields a layout whose `encode` and `decode`
//! operations are proved to round-trip, together with the declarations to be
//! emitted for it. What the schemas and the codecs are proved to obey is stated
//! in [`laws`].
//!
//! The schemas of the IEEE 802.15.4 MAC frame are built here and in the
//! `render_*` modules; [`run`] compiles them all.
use vstd::prelude::*;
use crate::bits::lemma_low_mask_values;
use crate::error::SchemaError;
use crate::file::DeclarationView;
use crate::file::GenFile;
use crate::file::OutputUnit;
use crate::file::OutputUnitView;
use crate::file::first_group_defect;
use crate::file::group_declarations;
use crate::file::units_view;
use crate::generate::bitfield::BitField;
use crate::generate::bitfield::BitFieldView;
use crate::generate::bitfield::Domain;
use crate::generate::bitfield::DomainView;
use crate::generate::bitfield::width_before;
use crate::generate::structure::AlternativeOptions;
use crate::generate::structure::Alternatives;
use crate::generate::structure::GroupView;
use crate::generate::structure::SimpleStructure;
use crate::generate::structure::Structure;
use crate::generate::structure::StructureView;
use crate::generate::structure::first_case_defect;
use crate::generate::structure::first_field_defect;
use crate::generate::structure::first_flat_defect;
use crate::generate::structure::group_named;
use crate::render_beacon::beacon_units;
use crate::render_mac_command::mac_command_units;
use crate::render_security::auxiliary_security_header_unit;
use crate::render_security::render_auxiliary_security_header;
use crate::render_security::render_security_control;
use crate::render_security::security_control_unit;

pub mod bits;
pub mod bytes;
pub mod error;
pub mod file;
pub mod generate;
pub mod laws;
pub mod render_beacon;
pub mod render_mac_command;
pub mod render_security;
pub mod source;
pub mod text;

verus! {

/// The shape of an address that is not present: nothing.
pub open spec fn addr_none() -> StructureView {
    StructureView::empty("addr_none"@)
}

/// The shape of a short address: two bytes.
pub open spec fn addr_short() -> StructureView {
    StructureView::simple("addr_short"@, "address"@, 2)
}

/// The shape of an extended address: eight bytes.
pub open spec fn addr_extended() -> StructureView {
    StructureView::simple("addr_extended"@, "address"@, 8)
}

/// The shapes that an address can take.
pub open spec fn address_options() -> GroupView {
    GroupView::new("address"@, addr_none()).with_variant(addr_short()).with_variant(
        addr_extended(),
    )
}

/// The shape of a PAN identifier that is not present: nothing.
pub open spec fn pan_none() -> StructureView {
    StructureView::empty("pan_none"@)
}

/// The shape of a PAN identifier that is present: two bytes.
pub open spec fn pan_short() -> StructureView {
    StructureView::simple("pan_short"@, "pan"@, 2)
}

/// The shapes that a PAN identifier can take.
pub open spec fn panid_options() -> GroupView {
    GroupView::new("panid"@, pan_none()).with_variant(pan_short())
}

/// The variant groups of the MAC header.
pub open spec fn mac_frame_alternatives() -> Seq<GroupView> {
    Seq::empty().push(address_options()).push(panid_options())
}

/// The MAC header: frame control, sequence number, and the addressing fields in
/// the shapes that the frame control announces.
pub open spec fn mhr() -> StructureView {
    StructureView::empty("mhr"@).bitfield("frame_control"@, "frame_control"@, 2).fixed_int(
        "sequence_number"@,
        1,
    ).alternative("dest_pan"@, "panid"@).alternative("dest_address"@, "address"@).alternative(
        "source_pan"@,
        "panid"@,
    ).alternative("source_address"@, "address"@)
}

/// The unit that declares the MAC header.
pub open spec fn mac_frame_unit() -> OutputUnitView {
    OutputUnitView {
        path: "out/mac_frame.rs"@,
        declarations: (Seq::empty().push(DeclarationView::Imports).push(
            DeclarationView::Record { schema: addr_none() },
        ).push(DeclarationView::Record { schema: addr_short() }).push(
            DeclarationView::Record { schema: addr_extended() },
        ).push(DeclarationView::Record { schema: pan_none() }).push(
            DeclarationView::Record { schema: pan_short() },
        ) + group_declarations(mac_frame_alternatives(), 2)).push(
            DeclarationView::Record { schema: mhr() },
        ),
    }
}

/// The shapes of the addresses and of the PAN identifiers are sound structures
/// of fixed shape.
pub proof fn lemma_mac_shapes_sound()
    ensures
        addr_none().flat_defect() is None,
        addr_short().flat_defect() is None,
        addr_extended().flat_defect() is None,
        pan_none().flat_defect() is None,
        pan_short().flat_defect() is None,
{
    reveal_with_fuel(first_flat_defect, 2);
}

/// The groups and the structure of the MAC header are sound.
pub proof fn lemma_mac_frame_sound()
    ensures
        first_group_defect(mac_frame_alternatives(), 0) is None,
        mhr().defect(mac_frame_alternatives()) is None,
{
    lemma_mac_shapes_sound();
    reveal_with_fuel(first_case_defect, 4);
    reveal_with_fuel(first_group_defect, 3);
    reveal_with_fuel(first_field_defect, 7);
    reveal_with_fuel(group_named, 3);
    reveal_strlit("addr_none");
    reveal_strlit("addr_short");
    reveal_strlit("addr_extended");
    reveal_strlit("pan_none");
    reveal_strlit("pan_short");
    reveal_strlit("frame_control");
    reveal_strlit("sequence_number");
    reveal_strlit("dest_pan");
    reveal_strlit("dest_address");
    reveal_strlit("source_pan");
    reveal_strlit("source_address");
    reveal_strlit("address");
    reveal_strlit("panid");
    assert("addr_none"@.len() == 9);
    assert("addr_short"@.len() == 10);
    assert("addr_extended"@.len() == 13);
    assert("pan_none"@.len() == 8);
    assert("pan_short"@.len() == 9);
    assert("frame_control"@.len() == 13);
    assert("sequence_number"@.len() == 15);
    assert("dest_pan"@.len() == 8);
    assert("dest_address"@.len() == 12);
    assert("source_pan"@.len() == 10);
    assert("source_address"@.len() == 14);
    assert("address"@.len() == 7);
    assert("panid"@.len() == 5);
}

/// Builds and compiles the MAC header with the shapes that its addressing
/// fields can take, and returns the unit that declares them.
pub fn render_mac() -> (r: Result<OutputUnit, SchemaError>)
    ensures
        r is Ok,
        r->Ok_0@ == mac_frame_unit(),
{
    let mut genfile = GenFile::new();
    genfile.add_struct_imports();
    let addr_none = Structure::new("addr_none");
    let addr_short = SimpleStructure::new("addr_short", "address", 2);
    let addr_extended = SimpleStructure::new("addr_extended", "address", 8);
    proof {
        lemma_mac_shapes_sound();
        lemma_mac_frame_sound();
    }
    genfile.add_struct(&addr_none)?;
    genfile.add_struct_simple(&addr_short)?;
    genfile.add_struct_simple(&addr_extended)?;
    let address = AlternativeOptions::new("address", &addr_none).insert_type(
        &addr_short,
    ).insert_type(&addr_extended);
    let pan_none = Structure::new("pan_none");
    let pan_short = SimpleStructure::new("pan_short", "pan", 2);
    genfile.add_struct(&pan_none)?;
    genfile.add_struct_simple(&pan_short)?;
    let panid = AlternativeOptions::new("panid", &pan_none).insert_type(&pan_short);
    let alternatives = Alternatives::new().insert(&address).insert(&panid);
    genfile.add_alternatives(&alternatives)?;
    let structure = Structure::new("mhr").add_bitfield(
        "frame_control",
        "frame_control",
        2,
    ).add_u8_field("sequence_number").add_alt_field("dest_pan", &panid).add_alt_field(
        "dest_address",
        &address,
    ).add_alt_field("source_pan", &panid).add_alt_field("source_address", &address);
    genfile.add_struct_with_alts(&structure, &alternatives)?;
    Ok(genfile.into_unit("out/mac_frame.rs"))
}

/// The schema of the frame control field.
pub open spec fn frame_control_schema() -> BitFieldView {
    BitFieldView::empty(
        "Frame_control"@,
        "This field contains information about the frame type, addressing and control flags."@,
    )
        .named(
            "Frame_type"@,
            "This field contains information about the frame type, addressing and control flags."@,
            3,
            DomainView::Numeric
                .symbol("Beacon"@, 0)
                .symbol("Data"@, 1)
                .symbol("Acknowledgement"@, 2)
                .symbol("MAC_command"@, 3)
                .symbol("Reserved"@, 4)
                .symbol("Multipurpose"@, 5)
                .symbol("Fragment"@, 6)
                .symbol("Extended"@, 7),
        )
        .named(
            "Security_enabled"@,
            "Specifies if the frame is encrypted using the key stored in the PIB."@,
            1,
            DomainView::Numeric
                .symbol("Unencrypted"@, 0)
                .symbol("Encrypted"@, 1),
        )
        .named(
            "Frame_pending"@,
            "Specifies if the sender has additional data to send to the recipient."@,
            1,
            DomainView::Numeric
                .symbol("No_frame_pending"@, 0)
                .symbol("Frame_pending"@, 1),
        )
        .named(
            "Ack_request"@,
            "Specifies whether an acknowledgement is required from the recipient device."@,
            1,
            DomainView::Numeric
                .symbol("Ack_not_requested"@, 0)
                .symbol("Ack_requested"@, 1),
        )
        .named(
            "PAN_Compression"@,
            "Specifies whether the MAC frame is to be sent within the same PAN."@,
            1,
            DomainView::Numeric
                .symbol("Uncompressed"@, 0)
                .symbol("Compressed"@, 1),
        )
        .reserved(1)
        .named(
            "Seq_nr_suppression"@,
            "Specifies if the sequence number should be suppressed."@,
            1,
            DomainView::Numeric
                .symbol("included"@, 0)
                .symbol("suppressed"@, 1),
        )
        .named(
            "IE_Present"@,
            "Specified if Information Elements (IEs) are contained in the frame."@,
            1,
            DomainView::Numeric
                .symbol("none"@, 0)
                .symbol("present"@, 1),
        )
        .named(
            "Dest_addr_mode"@,
            "Specifies the type of the destination address."@,
            2,
            DomainView::Numeric
                .symbol("Not_present"@, 0)
                .symbol("Address_16bit"@, 2)
                .symbol("Address_64bit_extended"@, 3),
        )
        .named(
            "Frame_version"@,
            "Specifies the version of the frame"@,
            2,
            DomainView::Numeric
                .symbol("version_2003"@, 0)
                .symbol("version_2006"@, 1)
                .symbol("current"@, 2),
        )
        .named(
            "Source_addr_mode"@,
            "Specifies the type of the source address."@,
            2,
            DomainView::Numeric
                .symbol("Not_present"@, 0)
                .symbol("Address_16bit"@, 2)
                .symbol("Address_64bit_extended"@, 3),
        )
}

/// The unit that declares the frame control field.
pub open spec fn frame_control_unit() -> OutputUnitView {
    OutputUnitView {
        path: "out/frame_control.rs"@,
        declarations: frame_control_schema().declarations(),
    }
}

/// The schema of the frame control field is valid: its names are told apart by
/// their lengths and characters, its symbols fit their slots, and its slots
/// fill a container exactly.
pub proof fn lemma_frame_control_valid()
    ensures
        frame_control_schema().valid(),
{
    reveal_with_fuel(width_before, 12);
    lemma_low_mask_values();
    reveal_strlit("Frame_type");
    reveal_strlit("Security_enabled");
    reveal_strlit("Frame_pending");
    reveal_strlit("Ack_request");
    reveal_strlit("PAN_Compression");
    reveal_strlit("Seq_nr_suppression");
    reveal_strlit("IE_Present");
    reveal_strlit("Dest_addr_mode");
    reveal_strlit("Frame_version");
    reveal_strlit("Source_addr_mode");
    reveal_strlit("Beacon");
    reveal_strlit("Data");
    reveal_strlit("Acknowledgement");
    reveal_strlit("MAC_command");
    reveal_strlit("Reserved");
    reveal_strlit("Multipurpose");
    reveal_strlit("Fragment");
    reveal_strlit("Extended");
    reveal_strlit("Unencrypted");
    reveal_strlit("Encrypted");
    reveal_strlit("No_frame_pending");
    reveal_strlit("Ack_not_requested");
    reveal_strlit("Ack_requested");
    reveal_strlit("Uncompressed");
    reveal_strlit("Compressed");
    reveal_strlit("included");
    reveal_strlit("suppressed");
    reveal_strlit("none");
    reveal_strlit("present");
    reveal_strlit("Not_present");
    reveal_strlit("Address_16bit");
    reveal_strlit("Address_64bit_extended");
    reveal_strlit("version_2003");
    reveal_strlit("version_2006");
    reveal_strlit("current");
    assert("Frame_type"@.len() == 10);
    assert("Security_enabled"@.len() == 16);
    assert("Frame_pending"@.len() == 13);
    assert("Ack_request"@.len() == 11);
    assert("PAN_Compression"@.len() == 15);
    assert("Seq_nr_suppression"@.len() == 18);
    assert("IE_Present"@.len() == 10);
    assert("Dest_addr_mode"@.len() == 14);
    assert("Frame_version"@.len() == 13);
    assert("Source_addr_mode"@.len() == 16);
    assert("Beacon"@.len() == 6);
    assert("Data"@.len() == 4);
    assert("Acknowledgement"@.len() == 15);
    assert("MAC_command"@.len() == 11);
    assert("Reserved"@.len() == 8);
    assert("Multipurpose"@.len() == 12);
    assert("Fragment"@.len() == 8);
    assert("Extended"@.len() == 8);
    assert("Unencrypted"@.len() == 11);
    assert("Encrypted"@.len() == 9);
    assert("No_frame_pending"@.len() == 16);
    assert("Ack_not_requested"@.len() == 17);
    assert("Ack_requested"@.len() == 13);
    assert("Uncompressed"@.len() == 12);
    assert("Compressed"@.len() == 10);
    assert("included"@.len() == 8);
    assert("suppressed"@.len() == 10);
    assert("none"@.len() == 4);
    assert("present"@.len() == 7);
    assert("Not_present"@.len() == 11);
    assert("Address_16bit"@.len() == 13);
    assert("Address_64bit_extended"@.len() == 22);
    assert("version_2003"@.len() == 12);
    assert("version_2006"@.len() == 12);
    assert("current"@.len() == 7);
    assert("Frame_type"@[0] == 'F');
    assert("Security_enabled"@[1] == 'e');
    assert("Frame_pending"@[6] == 'p');
    assert("IE_Present"@[0] == 'I');
    assert("Frame_version"@[6] == 'v');
    assert("Source_addr_mode"@[1] == 'o');
    assert("Reserved"@[0] == 'R');
    assert("Fragment"@[0] == 'F');
    assert("Extended"@[0] == 'E');
    assert("version_2003"@[11] == '3');
    assert("version_2006"@[11] == '6');
}

/// Builds and compiles the schema of the frame control field, and returns the
/// unit that declares it.
pub fn render_frame_control() -> (r: Result<OutputUnit, SchemaError>)
    ensures
        r is Ok,
        r->Ok_0@ == frame_control_unit(),
{
    let mut genfile = GenFile::new();
    let bitfield = BitField::new(
        "Frame_control",
        "This field contains information about the frame type, addressing and control flags.",
    )
        .add_bit_field(
            "Frame_type",
            "This field contains information about the frame type, addressing and control flags.",
            3,
            Domain::new()
                .add_enum_value("Beacon", 0)
                .add_enum_value("Data", 1)
                .add_enum_value("Acknowledgement", 2)
                .add_enum_value("MAC_command", 3)
                .add_enum_value("Reserved", 4)
                .add_enum_value("Multipurpose", 5)
                .add_enum_value("Fragment", 6)
                .add_enum_value("Extended", 7),
        )
        .add_bit_field(
            "Security_enabled",
            "Specifies if the frame is encrypted using the key stored in the PIB.",
            1,
            Domain::new()
                .add_enum_value("Unencrypted", 0)
                .add_enum_value("Encrypted", 1),
        )
        .add_bit_field(
            "Frame_pending",
            "Specifies if the sender has additional data to send to the recipient.",
            1,
            Domain::new()
                .add_enum_value("No_frame_pending", 0)
                .add_enum_value("Frame_pending", 1),
        )
        .add_bit_field(
            "Ack_request",
            "Specifies whether an acknowledgement is required from the recipient device.",
            1,
            Domain::new()
                .add_enum_value("Ack_not_requested", 0)
                .add_enum_value("Ack_requested", 1),
        )
        .add_bit_field(
            "PAN_Compression",
            "Specifies whether the MAC frame is to be sent within the same PAN.",
            1,
            Domain::new()
                .add_enum_value("Uncompressed", 0)
                .add_enum_value("Compressed", 1),
        )
        .add_reserved(1)
        .add_bit_field(
            "Seq_nr_suppression",
            "Specifies if the sequence number should be suppressed.",
            1,
            Domain::new()
                .add_enum_value("included", 0)
                .add_enum_value("suppressed", 1),
        )
        .add_bit_field(
            "IE_Present",
            "Specified if Information Elements (IEs) are contained in the frame.",
            1,
            Domain::new()
                .add_enum_value("none", 0)
                .add_enum_value("present", 1),
        )
        .add_bit_field(
            "Dest_addr_mode",
            "Specifies the type of the destination address.",
            2,
            Domain::new()
                .add_enum_value("Not_present", 0)
                .add_enum_value("Address_16bit", 2)
                .add_enum_value("Address_64bit_extended", 3),
        )
        .add_bit_field(
            "Frame_version",
            "Specifies the version of the frame",
            2,
            Domain::new()
                .add_enum_value("version_2003", 0)
                .add_enum_value("version_2006", 1)
                .add_enum_value("current", 2),
        )
        .add_bit_field(
            "Source_addr_mode",
            "Specifies the type of the source address.",
            2,
            Domain::new()
                .add_enum_value("Not_present", 0)
                .add_enum_value("Address_16bit", 2)
                .add_enum_value("Address_64bit_extended", 3),
        );
    proof {
        lemma_frame_control_valid();
    }
    match genfile.add_bitfield(&bitfield) {
        Ok(_) => {
            assert(genfile@ =~= frame_control_schema().declarations());
            Ok(genfile.into_unit("out/frame_control.rs"))
        },
        Err(e) => Err(e),
    }
}

/// The schema of the control field of an information element header.
pub open spec fn ie_control_schema() -> BitFieldView {
    BitFieldView::empty("IE Control"@, "Specifies the type of an IE header."@)
        .named(
            "Length"@,
            "Specifies the length of the IE header contents."@,
            7,
            DomainView::Numeric,
        )
        .named(
            "Element_id"@,
            "Specifies the type of the IE header."@,
            8,
            DomainView::Numeric
                .described("vendor_specific"@, "Vendor Specific Header IE"@, 0)
                .described("CSL_IE"@, "CSL IE"@, 26)
                .described("RIT_IE"@, "RIT IE"@, 27)
                .described("DSME_PAN"@, "DSME PAN descriptor IE"@, 28)
                .described("Rendezvous Time IE"@, "Rendezvous Time IE"@, 29)
                .described("Time_Correction_IE"@, "Time Correction IE"@, 30)
                .described("Ext_DSME_PAN"@, "Extended DSME PAN descriptor IE"@, 33)
                .described(
                    "Frag_seq_context"@,
                    "Fragment Sequence Context Description (FSCD) IE"@,
                    34,
                )
                .described("Simpl_Superframe"@, "Simplified Superframe Specification IE"@, 35)
                .described("Simpl_GTS"@, "Simplified GTS Specification IE"@, 36)
                .described("LECIM_Capabilities"@, "LECIM Capabilities IE"@, 37)
                .described("TRLE_Descr"@, "TRLE Descriptor IE"@, 38)
                .described("RCC"@, "RCC Capabilities IE"@, 39)
                .described("RCCN"@, "RCCN Descriptor IE"@, 40)
                .described("Global_Time"@, "Global Time IE"@, 41)
                .described("External_ANA"@, "Assigned to external organization"@, 42)
                .described("DA"@, "DA IE"@, 43)
                .described("Header_termination_1"@, "Header Termination 1 IE"@, 126)
                .described("Header_termination_2"@, "Header Termination 2 IE"@, 127),
        )
        .named(
            "Type"@,
            "Specifies the type of the IE header."@,
            1,
            DomainView::Numeric
                .symbol("default"@, 0),
        )
}

/// The unit that declares the control field of an information element header.
pub open spec fn ie_control_unit() -> OutputUnitView {
    OutputUnitView {
        path: "out/ie_control.rs"@,
        declarations: ie_control_schema().declarations(),
    }
}

/// The schema of the control field of an information element header is valid:
/// its names are told apart by their lengths and characters, its symbols fit
/// their slots, and its slots fill a container exactly.
pub proof fn lemma_ie_control_valid()
    ensures
        ie_control_schema().valid(),
{
    reveal_with_fuel(width_before, 4);
    lemma_low_mask_values();
    reveal_strlit("Length");
    reveal_strlit("Element_id");
    reveal_strlit("Type");
    reveal_strlit("vendor_specific");
    reveal_strlit("CSL_IE");
    reveal_strlit("RIT_IE");
    reveal_strlit("DSME_PAN");
    reveal_strlit("Rendezvous Time IE");
    reveal_strlit("Time_Correction_IE");
    reveal_strlit("Ext_DSME_PAN");
    reveal_strlit("Frag_seq_context");
    reveal_strlit("Simpl_Superframe");
    reveal_strlit("Simpl_GTS");
    reveal_strlit("LECIM_Capabilities");
    reveal_strlit("TRLE_Descr");
    reveal_strlit("RCC");
    reveal_strlit("RCCN");
    reveal_strlit("Global_Time");
    reveal_strlit("External_ANA");
    reveal_strlit("DA");
    reveal_strlit("Header_termination_1");
    reveal_strlit("Header_termination_2");
    assert("Length"@.len() == 6);
    assert("Element_id"@.len() == 10);
    assert("Type"@.len() == 4);
    assert("vendor_specific"@.len() == 15);
    assert("CSL_IE"@.len() == 6);
    assert("RIT_IE"@.len() == 6);
    assert("DSME_PAN"@.len() == 8);
    assert("Rendezvous Time IE"@.len() == 18);
    assert("Time_Correction_IE"@.len() == 18);
    assert("Ext_DSME_PAN"@.len() == 12);
    assert("Frag_seq_context"@.len() == 16);
    assert("Simpl_Superframe"@.len() == 16);
    assert("Simpl_GTS"@.len() == 9);
    assert("LECIM_Capabilities"@.len() == 18);
    assert("TRLE_Descr"@.len() == 10);
    assert("RCC"@.len() == 3);
    assert("RCCN"@.len() == 4);
    assert("Global_Time"@.len() == 11);
    assert("External_ANA"@.len() == 12);
    assert("DA"@.len() == 2);
    assert("Header_termination_1"@.len() == 20);
    assert("Header_termination_2"@.len() == 20);
    assert("CSL_IE"@[0] == 'C');
    assert("RIT_IE"@[0] == 'R');
    assert("Rendezvous Time IE"@[0] == 'R');
    assert("Time_Correction_IE"@[0] == 'T');
    assert("Ext_DSME_PAN"@[3] == '_');
    assert("Frag_seq_context"@[0] == 'F');
    assert("Simpl_Superframe"@[0] == 'S');
    assert("LECIM_Capabilities"@[0] == 'L');
    assert("External_ANA"@[3] == 'e');
    assert("Header_termination_1"@[19] == '1');
    assert("Header_termination_2"@[19] == '2');
}

/// Builds and compiles the schema of the control field of an information
/// element header, and returns the unit that declares it.
pub fn render_ie_control() -> (r: Result<OutputUnit, SchemaError>)
    ensures
        r is Ok,
        r->Ok_0@ == ie_control_unit(),
{
    let mut genfile = GenFile::new();
    let bitfield = BitField::new("IE Control", "Specifies the type of an IE header.")
        .add_bit_field(
            "Length",
            "Specifies the length of the IE header contents.",
            7,
            Domain::new(),
        )
        .add_bit_field(
            "Element_id",
            "Specifies the type of the IE header.",
            8,
            Domain::new()
                .add_enum_value_desc("vendor_specific", "Vendor Specific Header IE", 0)
                .add_enum_value_desc("CSL_IE", "CSL IE", 26)
                .add_enum_value_desc("RIT_IE", "RIT IE", 27)
                .add_enum_value_desc("DSME_PAN", "DSME PAN descriptor IE", 28)
                .add_enum_value_desc("Rendezvous Time IE", "Rendezvous Time IE", 29)
                .add_enum_value_desc("Time_Correction_IE", "Time Correction IE", 30)
                .add_enum_value_desc("Ext_DSME_PAN", "Extended DSME PAN descriptor IE", 33)
                .add_enum_value_desc(
                    "Frag_seq_context",
                    "Fragment Sequence Context Description (FSCD) IE",
                    34,
                )
                .add_enum_value_desc(
                    "Simpl_Superframe",
                    "Simplified Superframe Specification IE",
                    35,
                )
                .add_enum_value_desc("Simpl_GTS", "Simplified GTS Specification IE", 36)
                .add_enum_value_desc("LECIM_Capabilities", "LECIM Capabilities IE", 37)
                .add_enum_value_desc("TRLE_Descr", "TRLE Descriptor IE", 38)
                .add_enum_value_desc("RCC", "RCC Capabilities IE", 39)
                .add_enum_value_desc("RCCN", "RCCN Descriptor IE", 40)
                .add_enum_value_desc("Global_Time", "Global Time IE", 41)
                .add_enum_value_desc("External_ANA", "Assigned to external organization", 42)
                .add_enum_value_desc("DA", "DA IE", 43)
                .add_enum_value_desc("Header_termination_1", "Header Termination 1 IE", 126)
                .add_enum_value_desc("Header_termination_2", "Header Termination 2 IE", 127),
        )
        .add_bit_field(
            "Type",
            "Specifies the type of the IE header.",
            1,
            Domain::new()
                .add_enum_value("default", 0),
        );
    proof {
        lemma_ie_control_valid();
    }
    match genfile.add_bitfield(&bitfield) {
        Ok(_) => {
            assert(genfile@ =~= ie_control_schema().declarations());
            Ok(genfile.into_unit("out/ie_control.rs"))
        },
        Err(e) => Err(e),
    }
}

/// Every unit, in the order of its emission: the frame control field, the MAC
/// header, the information element control field, the security fields, the
/// beacon fields and the MAC commands.
pub open spec fn all_units() -> Seq<OutputUnitView> {
    Seq::empty().push(frame_control_unit()).push(mac_frame_unit()).push(ie_control_unit()).push(
        security_control_unit(),
    ).push(auxiliary_security_header_unit()) + beacon_units() + mac_command_units()
}

/// Builds and compiles every schema, and returns the units that declare them,
/// ready to be written.
pub fn run() -> (r: Result<Vec<OutputUnit>, SchemaError>)
    ensures
        r is Ok,
        units_view(r->Ok_0@) == all_units(),
{
    let mut units: Vec<OutputUnit> = Vec::new();
    units.push(render_frame_control()?);
    units.push(render_mac()?);
    units.push(render_ie_control()?);
    units.push(render_security_control()?);
    units.push(render_auxiliary_security_header()?);
    let ghost first = units_view(units@);
    let mut beacon = render_beacon::render()?;
    let ghost second = units_view(beacon@);
    units.append(&mut beacon);
    assert(units_view(units@) =~= first + second);
    let mut commands = render_mac_command::render()?;
    let ghost third = units_view(commands@);
    units.append(&mut commands);
    assert(units_view(units@) =~= first + second + third);
    Ok(units)
}

} // verus!
