//! The fields of a beacon frame.
use vstd::prelude::*;
use crate::bits::lemma_low_mask_values;
use crate::error::SchemaError;
use crate::file::DeclarationView;
use crate::file::GenFile;
use crate::file::OutputUnit;
use crate::file::OutputUnitView;
use crate::file::first_group_defect;
use crate::file::group_declarations;
use crate::file::units_view;
use crate::generate::bitfield::BitField;
use crate::generate::bitfield::BitFieldView;
use crate::generate::bitfield::Domain;
use crate::generate::bitfield::DomainView;
use crate::generate::bitfield::width_before;
use crate::generate::structure::AlternativeOptions;
use crate::generate::structure::Alternatives;
use crate::generate::structure::GroupView;
use crate::generate::structure::Structure;
use crate::generate::structure::StructureView;
use crate::generate::structure::first_case_defect;
use crate::generate::structure::first_field_defect;
use crate::generate::structure::first_flat_defect;
use crate::generate::structure::group_named;

verus! {

/// The schema of the superframe specification field.
pub open spec fn superframe_schema() -> BitFieldView {
    BitFieldView::empty("Superframe"@, "Superframe specification field."@)
        .named(
            "Beacon_order"@,
            "This field contains information about the transmission interval of the beacon."@,
            4,
            DomainView::Numeric,
        )
        .named(
            "Superframe_order"@,
            "This field contains information about the transmission duration of the beacon."@,
            4,
            DomainView::Numeric,
        )
        .named(
            "Final_CAP_slot"@,
            "This fied specifies the final superframe slot utilized by the CAP."@,
            4,
            DomainView::Numeric,
        )
        .named(
            "batt_life_ext"@,
            "Set if the frames transmitted are required to start before battery life extended periods."@,
            1,
            DomainView::Numeric
                .described("BLE_not_set"@, "Battery life extension is not required."@, 0)
                .described(
                    "BLE_set"@,
                    "Battery life extension is required and packets must be sent before macBattlifeExtPeriods full backoff periods afetr the IFS period following the beacon."@,
                    1,
                ),
        )
        .reserved(1)
        .named(
            "PAN_Coordinator"@,
            "Specifies if the sender is a PAN coordinator."@,
            1,
            DomainView::Numeric
                .described(
                    "not_pan_coordinator"@,
                    "The transmitting device is not a PAN coordinator."@,
                    0,
                )
                .described("pan_coordinator"@, "The transmitting device is a PAN coordinator"@, 1),
        )
        .named(
            "Association_permit"@,
            "Specifies if devices are permitted to join the PAN."@,
            1,
            DomainView::Numeric
                .described(
                    "not_permitted"@,
                    "Devices are not permitted to associate with the PAN."@,
                    0,
                )
                .described("permitted"@, "Devices are permitted to associate with the PAN."@, 1),
        )
}

/// The unit that declares the superframe specification field.
pub open spec fn superframe_unit() -> OutputUnitView {
    OutputUnitView {
        path: "out/beacon/superframe.rs"@,
        declarations: superframe_schema().declarations(),
    }
}

/// The schema of the superframe specification field is valid: its names are
/// told apart by their lengths and characters, its symbols fit their slots, and
/// its slots fill a container exactly.
pub proof fn lemma_superframe_valid()
    ensures
        superframe_schema().valid(),
{
    reveal_with_fuel(width_before, 8);
    lemma_low_mask_values();
    reveal_strlit("Beacon_order");
    reveal_strlit("Superframe_order");
    reveal_strlit("Final_CAP_slot");
    reveal_strlit("batt_life_ext");
    reveal_strlit("PAN_Coordinator");
    reveal_strlit("Association_permit");
    reveal_strlit("BLE_not_set");
    reveal_strlit("BLE_set");
    reveal_strlit("not_pan_coordinator");
    reveal_strlit("pan_coordinator");
    reveal_strlit("not_permitted");
    reveal_strlit("permitted");
    assert("Beacon_order"@.len() == 12);
    assert("Superframe_order"@.len() == 16);
    assert("Final_CAP_slot"@.len() == 14);
    assert("batt_life_ext"@.len() == 13);
    assert("PAN_Coordinator"@.len() == 15);
    assert("Association_permit"@.len() == 18);
    assert("BLE_not_set"@.len() == 11);
    assert("BLE_set"@.len() == 7);
    assert("not_pan_coordinator"@.len() == 19);
    assert("pan_coordinator"@.len() == 15);
    assert("not_permitted"@.len() == 13);
    assert("permitted"@.len() == 9);
}

/// Builds and compiles the schema of the superframe specification field, and
/// returns the unit that declares it.
pub fn render_superframe() -> (r: Result<OutputUnit, SchemaError>)
    ensures
        r is Ok,
        r->Ok_0@ == superframe_unit(),
{
    let mut genfile = GenFile::new();
    let bitfield = BitField::new("Superframe", "Superframe specification field.")
        .add_bit_field(
            "Beacon_order",
            "This field contains information about the transmission interval of the beacon.",
            4,
            Domain::new().numeric(),
        )
        .add_bit_field(
            "Superframe_order",
            "This field contains information about the transmission duration of the beacon.",
            4,
            Domain::new().numeric(),
        )
        .add_bit_field(
            "Final_CAP_slot",
            "This fied specifies the final superframe slot utilized by the CAP.",
            4,
            Domain::new().numeric(),
        )
        .add_bit_field(
            "batt_life_ext",
            "Set if the frames transmitted are required to start before battery life extended periods.",
            1,
            Domain::new()
                .add_enum_value_desc("BLE_not_set", "Battery life extension is not required.", 0)
                .add_enum_value_desc(
                    "BLE_set",
                    "Battery life extension is required and packets must be sent before macBattlifeExtPeriods full backoff periods afetr the IFS period following the beacon.",
                    1,
                ),
        )
        .add_reserved(1)
        .add_bit_field(
            "PAN_Coordinator",
            "Specifies if the sender is a PAN coordinator.",
            1,
            Domain::new()
                .add_enum_value_desc(
                    "not_pan_coordinator",
                    "The transmitting device is not a PAN coordinator.",
                    0,
                )
                .add_enum_value_desc(
                    "pan_coordinator",
                    "The transmitting device is a PAN coordinator",
                    1,
                ),
        )
        .add_bit_field(
            "Association_permit",
            "Specifies if devices are permitted to join the PAN.",
            1,
            Domain::new()
                .add_enum_value_desc(
                    "not_permitted",
                    "Devices are not permitted to associate with the PAN.",
                    0,
                )
                .add_enum_value_desc(
                    "permitted",
                    "Devices are permitted to associate with the PAN.",
                    1,
                ),
        );
    proof {
        lemma_superframe_valid();
    }
    match genfile.add_bitfield(&bitfield) {
        Ok(_) => {
            assert(genfile@ =~= superframe_schema().declarations());
            Ok(genfile.into_unit("out/beacon/superframe.rs"))
        },
        Err(e) => Err(e),
    }
}

/// The shape of the GTS directions when there are none: nothing.
pub open spec fn gts_dir_none() -> StructureView {
    StructureView::empty("gts_dir_none"@)
}

/// The shape of the GTS directions when they are present: the directions field.
pub open spec fn gts_dir_present() -> StructureView {
    StructureView::empty("gts_dir_present"@).bitfield("gts_dir"@, "gts_directions"@, 1)
}

/// The shapes that the GTS directions can take.
pub open spec fn gts_dir_options() -> GroupView {
    GroupView::new("gts_dir"@, gts_dir_none()).with_variant(gts_dir_present())
}

/// The variant groups of the GTS information.
pub open spec fn gts_info_alternatives() -> Seq<GroupView> {
    Seq::empty().push(gts_dir_options())
}

/// The GTS information of a beacon: the GTS specification and, if it announces
/// any, the directions of the slots.
pub open spec fn gts_info() -> StructureView {
    StructureView::empty("gts_info"@).bitfield(
        "gts_specification"@,
        "gts_specification"@,
        1,
    ).alternative("gts_directions"@, "gts_dir"@)
}

/// The unit that declares the GTS information.
pub open spec fn gts_info_unit() -> OutputUnitView {
    OutputUnitView {
        path: "out/beacon/gts_info.rs"@,
        declarations: (Seq::empty().push(DeclarationView::Imports).push(
            DeclarationView::Record { schema: gts_dir_none() },
        ).push(DeclarationView::Record { schema: gts_dir_present() }) + group_declarations(
            gts_info_alternatives(),
            1,
        )).push(DeclarationView::Record { schema: gts_info() }),
    }
}

/// The shapes, the group and the structure of the GTS information are sound.
pub proof fn lemma_gts_info_sound()
    ensures
        gts_dir_none().flat_defect() is None,
        gts_dir_present().flat_defect() is None,
        first_group_defect(gts_info_alternatives(), 0) is None,
        gts_info().defect(gts_info_alternatives()) is None,
{
    reveal_with_fuel(first_flat_defect, 2);
    reveal_with_fuel(first_case_defect, 3);
    reveal_with_fuel(first_group_defect, 2);
    reveal_with_fuel(first_field_defect, 3);
    reveal_with_fuel(group_named, 2);
    reveal_strlit("gts_dir_none");
    reveal_strlit("gts_dir_present");
    reveal_strlit("gts_specification");
    reveal_strlit("gts_directions");
    assert("gts_dir_none"@.len() == 12);
    assert("gts_dir_present"@.len() == 15);
    assert("gts_specification"@.len() == 17);
    assert("gts_directions"@.len() == 14);
}

/// Builds and compiles the GTS information with the shapes that its directions
/// can take, and returns the unit that declares them.
pub fn render_gts_info() -> (r: Result<OutputUnit, SchemaError>)
    ensures
        r is Ok,
        r->Ok_0@ == gts_info_unit(),
{
    let mut genfile = GenFile::new();
    genfile.add_struct_imports();
    let gts_dir_none = Structure::new("gts_dir_none");
    let gts_dir_present = Structure::new("gts_dir_present").add_bitfield(
        "gts_dir",
        "gts_directions",
        1,
    );
    proof {
        lemma_gts_info_sound();
    }
    genfile.add_struct(&gts_dir_none)?;
    genfile.add_struct(&gts_dir_present)?;
    let gts_dir = AlternativeOptions::new("gts_dir", &gts_dir_none).insert_type(&gts_dir_present);
    let alternatives = Alternatives::new().insert(&gts_dir);
    genfile.add_alternatives(&alternatives)?;
    let structure = Structure::new("gts_info").add_bitfield(
        "gts_specification",
        "gts_specification",
        1,
    ).add_alt_field("gts_directions", &gts_dir);
    genfile.add_struct_with_alts(&structure, &alternatives)?;
    Ok(genfile.into_unit("out/beacon/gts_info.rs"))
}

/// The schema of the field that specifies the guaranteed time slots.
pub open spec fn gts_specification_schema() -> BitFieldView {
    BitFieldView::empty("GTS_specification"@, "Guarranteed timeslot specification field."@)
        .named(
            "descriptor_count"@,
            "The number of guaranteed timeslot descriptors included."@,
            3,
            DomainView::Numeric,
        )
        .reserved(4)
        .named(
            "permit"@,
            "Specifies if the coordinator is accepting guaranteed timeslot requests."@,
            1,
            DomainView::Numeric
                .described("not_permitted"@, "The coordinator is not accepting GTS requests."@, 0)
                .described("permitted"@, "The coordinator is accepting GTS requests."@, 1),
        )
}

/// The unit that declares the field that specifies the guaranteed time slots.
pub open spec fn gts_specification_unit() -> OutputUnitView {
    OutputUnitView {
        path: "out/beacon/gts_specification.rs"@,
        declarations: gts_specification_schema().declarations(),
    }
}

/// The schema of the field that specifies the guaranteed time slots is valid:
/// its names are told apart by their lengths and characters, its symbols fit
/// their slots, and its slots fill a container exactly.
pub proof fn lemma_gts_specification_valid()
    ensures
        gts_specification_schema().valid(),
{
    reveal_with_fuel(width_before, 4);
    lemma_low_mask_values();
    reveal_strlit("descriptor_count");
    reveal_strlit("permit");
    reveal_strlit("not_permitted");
    reveal_strlit("permitted");
    assert("descriptor_count"@.len() == 16);
    assert("permit"@.len() == 6);
    assert("not_permitted"@.len() == 13);
    assert("permitted"@.len() == 9);
}

/// Builds and compiles the schema of the field that specifies the guaranteed
/// time slots, and returns the unit that declares it.
pub fn render_gts_specification() -> (r: Result<OutputUnit, SchemaError>)
    ensures
        r is Ok,
        r->Ok_0@ == gts_specification_unit(),
{
    let mut genfile = GenFile::new();
    let bitfield = BitField::new("GTS_specification", "Guarranteed timeslot specification field.")
        .add_bit_field(
            "descriptor_count",
            "The number of guaranteed timeslot descriptors included.",
            3,
            Domain::new().numeric(),
        )
        .add_reserved(4)
        .add_bit_field(
            "permit",
            "Specifies if the coordinator is accepting guaranteed timeslot requests.",
            1,
            Domain::new()
                .add_enum_value_desc(
                    "not_permitted",
                    "The coordinator is not accepting GTS requests.",
                    0,
                )
                .add_enum_value_desc("permitted", "The coordinator is accepting GTS requests.", 1),
        );
    proof {
        lemma_gts_specification_valid();
    }
    match genfile.add_bitfield(&bitfield) {
        Ok(_) => {
            assert(genfile@ =~= gts_specification_schema().declarations());
            Ok(genfile.into_unit("out/beacon/gts_specification.rs"))
        },
        Err(e) => Err(e),
    }
}

/// The schema of the field that gives the directions of the guaranteed time
/// slots.
pub open spec fn gts_directions_schema() -> BitFieldView {
    BitFieldView::empty("GTS_Directions"@, "Guarranteed timeslot directions field."@)
        .named(
            "directions_mask"@,
            "Mask identifying the directions of the GTSs in the superframe."@,
            7,
            DomainView::Numeric,
        )
        .reserved(1)
}

/// The unit that declares the field that gives the directions of the guaranteed
/// time slots.
pub open spec fn gts_directions_unit() -> OutputUnitView {
    OutputUnitView {
        path: "out/beacon/gts_directions.rs"@,
        declarations: gts_directions_schema().declarations(),
    }
}

/// The schema of the field that gives the directions of the guaranteed time
/// slots is valid: its names are told apart by their lengths and characters,
/// its symbols fit their slots, and its slots fill a container exactly.
pub proof fn lemma_gts_directions_valid()
    ensures
        gts_directions_schema().valid(),
{
    reveal_with_fuel(width_before, 3);
    lemma_low_mask_values();
}

/// Builds and compiles the schema of the field that gives the directions of the
/// guaranteed time slots, and returns the unit that declares it.
pub fn render_gts_direction() -> (r: Result<OutputUnit, SchemaError>)
    ensures
        r is Ok,
        r->Ok_0@ == gts_directions_unit(),
{
    let mut genfile = GenFile::new();
    let bitfield = BitField::new("GTS_Directions", "Guarranteed timeslot directions field.")
        .add_bit_field(
            "directions_mask",
            "Mask identifying the directions of the GTSs in the superframe.",
            7,
            Domain::new(),
        )
        .add_reserved(1);
    proof {
        lemma_gts_directions_valid();
    }
    match genfile.add_bitfield(&bitfield) {
        Ok(_) => {
            assert(genfile@ =~= gts_directions_schema().declarations());
            Ok(genfile.into_unit("out/beacon/gts_directions.rs"))
        },
        Err(e) => Err(e),
    }
}

/// The schema of the configuration of one guaranteed time slot.
pub open spec fn gts_descriptor_config_schema() -> BitFieldView {
    BitFieldView::empty(
        "GTS_Descriptor"@,
        "The starting slot and length of a guaranteed time slot. Note that this does not include the device short address."@,
    )
        .named(
            "starting_slot"@,
            "The starting slot of the guaranteed time slot."@,
            4,
            DomainView::Numeric,
        )
        .named(
            "length"@,
            "The number of contiguous superframe slots over which this guaranteed time slot is active."@,
            4,
            DomainView::Numeric,
        )
}

/// The unit that declares the configuration of one guaranteed time slot.
pub open spec fn gts_descriptor_config_unit() -> OutputUnitView {
    OutputUnitView {
        path: "out/beacon/gts_descriptor_config.rs"@,
        declarations: gts_descriptor_config_schema().declarations(),
    }
}

/// The schema of the configuration of one guaranteed time slot is valid: its
/// names are told apart by their lengths and characters, its symbols fit their
/// slots, and its slots fill a container exactly.
pub proof fn lemma_gts_descriptor_config_valid()
    ensures
        gts_descriptor_config_schema().valid(),
{
    reveal_with_fuel(width_before, 3);
    lemma_low_mask_values();
    reveal_strlit("starting_slot");
    reveal_strlit("length");
    assert("starting_slot"@.len() == 13);
    assert("length"@.len() == 6);
}

/// Builds and compiles the schema of the configuration of one guaranteed time
/// slot, and returns the unit that declares it.
pub fn render_gts_descriptor_config() -> (r: Result<OutputUnit, SchemaError>)
    ensures
        r is Ok,
        r->Ok_0@ == gts_descriptor_config_unit(),
{
    let mut genfile = GenFile::new();
    let bitfield = BitField::new(
        "GTS_Descriptor",
        "The starting slot and length of a guaranteed time slot. Note that this does not include the device short address.",
    )
        .add_bit_field(
            "starting_slot",
            "The starting slot of the guaranteed time slot.",
            4,
            Domain::new().numeric(),
        )
        .add_bit_field(
            "length",
            "The number of contiguous superframe slots over which this guaranteed time slot is active.",
            4,
            Domain::new().numeric(),
        );
    proof {
        lemma_gts_descriptor_config_valid();
    }
    match genfile.add_bitfield(&bitfield) {
        Ok(_) => {
            assert(genfile@ =~= gts_descriptor_config_schema().declarations());
            Ok(genfile.into_unit("out/beacon/gts_descriptor_config.rs"))
        },
        Err(e) => Err(e),
    }
}

/// The descriptor of one guaranteed time slot: the short address of the device
/// it belongs to, and its configuration.
pub open spec fn gts_descriptor() -> StructureView {
    StructureView::empty("gts_descriptor"@).fixed_int("short_address"@, 2).bitfield(
        "config"@,
        "gts_descriptor_config"@,
        1,
    )
}

/// The unit that declares the descriptor of a guaranteed time slot.
pub open spec fn gts_descriptor_unit() -> OutputUnitView {
    OutputUnitView {
        path: "out/beacon/gts_descriptor.rs"@,
        declarations: Seq::empty().push(DeclarationView::Imports).push(
            DeclarationView::Record { schema: gts_descriptor() },
        ),
    }
}

/// The descriptor of a guaranteed time slot is a sound structure of fixed
/// shape.
pub proof fn lemma_gts_descriptor_sound()
    ensures
        gts_descriptor().flat_defect() is None,
{
    reveal_with_fuel(first_flat_defect, 3);
    reveal_strlit("short_address");
    reveal_strlit("config");
    assert("short_address"@.len() == 13);
    assert("config"@.len() == 6);
}

/// Builds and compiles the descriptor of a guaranteed time slot, and returns
/// the unit that declares it.
pub fn render_gts_descriptor() -> (r: Result<OutputUnit, SchemaError>)
    ensures
        r is Ok,
        r->Ok_0@ == gts_descriptor_unit(),
{
    let mut genfile = GenFile::new();
    genfile.add_struct_imports();
    let structure = Structure::new("gts_descriptor").add_u16_field("short_address").add_bitfield(
        "config",
        "gts_descriptor_config",
        1,
    );
    proof {
        lemma_gts_descriptor_sound();
    }
    genfile.add_struct(&structure)?;
    Ok(genfile.into_unit("out/beacon/gts_descriptor.rs"))
}

/// The schema of the field that counts the pending addresses.
pub open spec fn pending_address_spec_schema() -> BitFieldView {
    BitFieldView::empty("Pending_address_specification"@, ""@)
        .named(
            "number_short_addresses"@,
            "Number of short addresses pending"@,
            3,
            DomainView::Numeric,
        )
        .reserved(1)
        .named(
            "number_extended_addresses"@,
            "Number of extended addresses pending"@,
            3,
            DomainView::Numeric,
        )
        .reserved(1)
}

/// The unit that declares the field that counts the pending addresses.
pub open spec fn pending_address_spec_unit() -> OutputUnitView {
    OutputUnitView {
        path: "out/beacon/pending_address_specifications.rs"@,
        declarations: pending_address_spec_schema().declarations(),
    }
}

/// The schema of the field that counts the pending addresses is valid: its
/// names are told apart by their lengths and characters, its symbols fit their
/// slots, and its slots fill a container exactly.
pub proof fn lemma_pending_address_spec_valid()
    ensures
        pending_address_spec_schema().valid(),
{
    reveal_with_fuel(width_before, 5);
    lemma_low_mask_values();
    reveal_strlit("number_short_addresses");
    reveal_strlit("number_extended_addresses");
    assert("number_short_addresses"@.len() == 22);
    assert("number_extended_addresses"@.len() == 25);
}

/// Builds and compiles the schema of the field that counts the pending
/// addresses, and returns the unit that declares it.
pub fn render_pending_address_spec() -> (r: Result<OutputUnit, SchemaError>)
    ensures
        r is Ok,
        r->Ok_0@ == pending_address_spec_unit(),
{
    let mut genfile = GenFile::new();
    let bitfield = BitField::new("Pending_address_specification", "")
        .add_bit_field(
            "number_short_addresses",
            "Number of short addresses pending",
            3,
            Domain::new().numeric(),
        )
        .add_reserved(1)
        .add_bit_field(
            "number_extended_addresses",
            "Number of extended addresses pending",
            3,
            Domain::new().numeric(),
        )
        .add_reserved(1);
    proof {
        lemma_pending_address_spec_valid();
    }
    match genfile.add_bitfield(&bitfield) {
        Ok(_) => {
            assert(genfile@ =~= pending_address_spec_schema().declarations());
            Ok(genfile.into_unit("out/beacon/pending_address_specifications.rs"))
        },
        Err(e) => Err(e),
    }
}

/// The units of the beacon frame, in the order of their emission.
pub open spec fn beacon_units() -> Seq<OutputUnitView> {
    Seq::empty()
        .push(superframe_unit())
        .push(gts_specification_unit())
        .push(gts_directions_unit())
        .push(gts_descriptor_config_unit())
        .push(gts_descriptor_unit())
        .push(gts_info_unit())
        .push(pending_address_spec_unit())
}

/// Builds and compiles every schema of the beacon frame, and returns the units
/// that declare them.
pub fn render() -> (r: Result<Vec<OutputUnit>, SchemaError>)
    ensures
        r is Ok,
        units_view(r->Ok_0@) == beacon_units(),
{
    let mut units: Vec<OutputUnit> = Vec::new();
    units.push(render_superframe()?);
    units.push(render_gts_specification()?);
    units.push(render_gts_direction()?);
    units.push(render_gts_descriptor_config()?);
    units.push(render_gts_descriptor()?);
    units.push(render_gts_info()?);
    units.push(render_pending_address_spec()?);
    assert(units_view(units@) =~= beacon_units());
    Ok(units)
}

} // verus!
