//! The fields of the MAC command frames.
use vstd::prelude::*;
use crate::bits::lemma_low_mask_values;
use crate::error::SchemaError;
use crate::file::DeclarationView;
use crate::file::GenFile;
use crate::file::OutputUnit;
use crate::file::OutputUnitView;
use crate::file::units_view;
use crate::generate::bitfield::BitField;
use crate::generate::bitfield::BitFieldView;
use crate::generate::bitfield::Domain;
use crate::generate::bitfield::DomainView;
use crate::generate::bitfield::width_before;
use crate::generate::structure::Structure;
use crate::generate::structure::StructureView;
use crate::generate::structure::first_flat_defect;

verus! {

/// The schema of the MAC command identifier.
pub open spec fn mac_command_id_schema() -> BitFieldView {
    BitFieldView::empty("MAC command"@, "The MAC command identifier"@)
        .named(
            "id"@,
            "The MAC command identifier."@,
            8,
            DomainView::Numeric
                .described("assoc_request"@, "Association request command"@, 1)
                .described("assoc_response"@, "Association response command"@, 2)
                .described("dissasoc_notify"@, "Dissassociation Notification command"@, 3)
                .described("data_request"@, "Data request command"@, 4)
                .described("pan_id_conflict"@, "PAN ID Conflict Notification command"@, 5)
                .described("orphan_notify"@, "Orphan notification command"@, 6)
                .described("beacon_request"@, "Beacon request command"@, 7)
                .described("coordinator_realign"@, "Coordinator Realignment command"@, 8)
                .described("gts_request"@, "GTS request command"@, 9)
                .described("trle_mgmt_request"@, "TRLE Management Request command"@, 10)
                .described("trle_mgmt_response"@, "TRLE Management Response command"@, 11)
                .described("dsme_association_request"@, "DSME Association Request command"@, 19)
                .described("dsme_association_response"@, "DSME Association Response command"@, 20)
                .described("dsme_gts_request"@, "DSME Association Request command"@, 21)
                .described("dsme_gts_response"@, "DSME Association Response command"@, 22)
                .described("dsme_gts_notify"@, "DSME Association Notify command"@, 23)
                .described("dsme_info_request"@, "DSME Information Request command"@, 24)
                .described("dsme_info_response"@, "DSME Information Response command"@, 25)
                .described(
                    "dsme_beacon_alloc_notify"@,
                    "DSME Beacon Allocation Notification command"@,
                    26,
                )
                .described(
                    "dsme_beacon_collision_notify"@,
                    "DSME Beacon Collision Notification command"@,
                    27,
                )
                .described("dsme_link_report"@, "DSME Link Report command"@, 28)
                .described("rit_data_request"@, "RIT Data Request command"@, 32)
                .described("dbs_request"@, "DBS Request command"@, 33)
                .described("dbs_response"@, "DBS Response command"@, 34)
                .described("rit_data_response"@, "RIT Data Response command"@, 35)
                .described("vendor_specific"@, "Vendor Specific command"@, 36)
                .described("srm_request"@, "SRM Request command"@, 37)
                .described("srm_response"@, "SRM Response command"@, 38)
                .described("srm_report"@, "SRM Report command"@, 39)
                .described("srm_info"@, "SRM Information command"@, 40),
        )
}

/// The unit that declares the MAC command identifier.
pub open spec fn mac_command_id_unit() -> OutputUnitView {
    OutputUnitView {
        path: "out/mac_command/command_id.rs"@,
        declarations: mac_command_id_schema().declarations(),
    }
}

/// The schema of the MAC command identifier is valid: its names are told apart
/// by their lengths and characters, its symbols fit their slots, and its slots
/// fill a container exactly.
pub proof fn lemma_mac_command_id_valid()
    ensures
        mac_command_id_schema().valid(),
{
    reveal_with_fuel(width_before, 2);
    lemma_low_mask_values();
    reveal_strlit("assoc_request");
    reveal_strlit("assoc_response");
    reveal_strlit("dissasoc_notify");
    reveal_strlit("data_request");
    reveal_strlit("pan_id_conflict");
    reveal_strlit("orphan_notify");
    reveal_strlit("beacon_request");
    reveal_strlit("coordinator_realign");
    reveal_strlit("gts_request");
    reveal_strlit("trle_mgmt_request");
    reveal_strlit("trle_mgmt_response");
    reveal_strlit("dsme_association_request");
    reveal_strlit("dsme_association_response");
    reveal_strlit("dsme_gts_request");
    reveal_strlit("dsme_gts_response");
    reveal_strlit("dsme_gts_notify");
    reveal_strlit("dsme_info_request");
    reveal_strlit("dsme_info_response");
    reveal_strlit("dsme_beacon_alloc_notify");
    reveal_strlit("dsme_beacon_collision_notify");
    reveal_strlit("dsme_link_report");
    reveal_strlit("rit_data_request");
    reveal_strlit("dbs_request");
    reveal_strlit("dbs_response");
    reveal_strlit("rit_data_response");
    reveal_strlit("vendor_specific");
    reveal_strlit("srm_request");
    reveal_strlit("srm_response");
    reveal_strlit("srm_report");
    reveal_strlit("srm_info");
    assert("assoc_request"@.len() == 13);
    assert("assoc_response"@.len() == 14);
    assert("dissasoc_notify"@.len() == 15);
    assert("data_request"@.len() == 12);
    assert("pan_id_conflict"@.len() == 15);
    assert("orphan_notify"@.len() == 13);
    assert("beacon_request"@.len() == 14);
    assert("coordinator_realign"@.len() == 19);
    assert("gts_request"@.len() == 11);
    assert("trle_mgmt_request"@.len() == 17);
    assert("trle_mgmt_response"@.len() == 18);
    assert("dsme_association_request"@.len() == 24);
    assert("dsme_association_response"@.len() == 25);
    assert("dsme_gts_request"@.len() == 16);
    assert("dsme_gts_response"@.len() == 17);
    assert("dsme_gts_notify"@.len() == 15);
    assert("dsme_info_request"@.len() == 17);
    assert("dsme_info_response"@.len() == 18);
    assert("dsme_beacon_alloc_notify"@.len() == 24);
    assert("dsme_beacon_collision_notify"@.len() == 28);
    assert("dsme_link_report"@.len() == 16);
    assert("rit_data_request"@.len() == 16);
    assert("dbs_request"@.len() == 11);
    assert("dbs_response"@.len() == 12);
    assert("rit_data_response"@.len() == 17);
    assert("vendor_specific"@.len() == 15);
    assert("srm_request"@.len() == 11);
    assert("srm_response"@.len() == 12);
    assert("srm_report"@.len() == 10);
    assert("srm_info"@.len() == 8);
    assert("assoc_request"@[0] == 'a');
    assert("assoc_response"@[0] == 'a');
    assert("dissasoc_notify"@[0] == 'd');
    assert("dissasoc_notify"@[1] == 'i');
    assert("data_request"@[0] == 'd');
    assert("data_request"@[1] == 'a');
    assert("pan_id_conflict"@[0] == 'p');
    assert("orphan_notify"@[0] == 'o');
    assert("beacon_request"@[0] == 'b');
    assert("gts_request"@[0] == 'g');
    assert("trle_mgmt_request"@[0] == 't');
    assert("trle_mgmt_response"@[0] == 't');
    assert("dsme_association_request"@[5] == 'a');
    assert("dsme_gts_request"@[0] == 'd');
    assert("dsme_gts_request"@[5] == 'g');
    assert("dsme_gts_response"@[0] == 'd');
    assert("dsme_gts_response"@[5] == 'g');
    assert("dsme_gts_notify"@[0] == 'd');
    assert("dsme_gts_notify"@[1] == 's');
    assert("dsme_info_request"@[0] == 'd');
    assert("dsme_info_request"@[5] == 'i');
    assert("dsme_info_response"@[0] == 'd');
    assert("dsme_beacon_alloc_notify"@[5] == 'b');
    assert("dsme_link_report"@[0] == 'd');
    assert("dsme_link_report"@[5] == 'l');
    assert("rit_data_request"@[0] == 'r');
    assert("dbs_request"@[0] == 'd');
    assert("dbs_response"@[0] == 'd');
    assert("dbs_response"@[1] == 'b');
    assert("rit_data_response"@[0] == 'r');
    assert("vendor_specific"@[0] == 'v');
    assert("srm_request"@[0] == 's');
    assert("srm_response"@[0] == 's');
}

/// Builds and compiles the schema of the MAC command identifier, and returns
/// the unit that declares it.
pub fn render_mac_command_id() -> (r: Result<OutputUnit, SchemaError>)
    ensures
        r is Ok,
        r->Ok_0@ == mac_command_id_unit(),
{
    let mut genfile = GenFile::new();
    let bitfield = BitField::new("MAC command", "The MAC command identifier")
        .add_bit_field(
            "id",
            "The MAC command identifier.",
            8,
            Domain::new()
                .add_enum_value_desc("assoc_request", "Association request command", 1)
                .add_enum_value_desc("assoc_response", "Association response command", 2)
                .add_enum_value_desc("dissasoc_notify", "Dissassociation Notification command", 3)
                .add_enum_value_desc("data_request", "Data request command", 4)
                .add_enum_value_desc("pan_id_conflict", "PAN ID Conflict Notification command", 5)
                .add_enum_value_desc("orphan_notify", "Orphan notification command", 6)
                .add_enum_value_desc("beacon_request", "Beacon request command", 7)
                .add_enum_value_desc("coordinator_realign", "Coordinator Realignment command", 8)
                .add_enum_value_desc("gts_request", "GTS request command", 9)
                .add_enum_value_desc("trle_mgmt_request", "TRLE Management Request command", 10)
                .add_enum_value_desc("trle_mgmt_response", "TRLE Management Response command", 11)
                .add_enum_value_desc(
                    "dsme_association_request",
                    "DSME Association Request command",
                    19,
                )
                .add_enum_value_desc(
                    "dsme_association_response",
                    "DSME Association Response command",
                    20,
                )
                .add_enum_value_desc("dsme_gts_request", "DSME Association Request command", 21)
                .add_enum_value_desc("dsme_gts_response", "DSME Association Response command", 22)
                .add_enum_value_desc("dsme_gts_notify", "DSME Association Notify command", 23)
                .add_enum_value_desc("dsme_info_request", "DSME Information Request command", 24)
                .add_enum_value_desc("dsme_info_response", "DSME Information Response command", 25)
                .add_enum_value_desc(
                    "dsme_beacon_alloc_notify",
                    "DSME Beacon Allocation Notification command",
                    26,
                )
                .add_enum_value_desc(
                    "dsme_beacon_collision_notify",
                    "DSME Beacon Collision Notification command",
                    27,
                )
                .add_enum_value_desc("dsme_link_report", "DSME Link Report command", 28)
                .add_enum_value_desc("rit_data_request", "RIT Data Request command", 32)
                .add_enum_value_desc("dbs_request", "DBS Request command", 33)
                .add_enum_value_desc("dbs_response", "DBS Response command", 34)
                .add_enum_value_desc("rit_data_response", "RIT Data Response command", 35)
                .add_enum_value_desc("vendor_specific", "Vendor Specific command", 36)
                .add_enum_value_desc("srm_request", "SRM Request command", 37)
                .add_enum_value_desc("srm_response", "SRM Response command", 38)
                .add_enum_value_desc("srm_report", "SRM Report command", 39)
                .add_enum_value_desc("srm_info", "SRM Information command", 40),
        );
    proof {
        lemma_mac_command_id_valid();
    }
    match genfile.add_bitfield(&bitfield) {
        Ok(_) => {
            assert(genfile@ =~= mac_command_id_schema().declarations());
            Ok(genfile.into_unit("out/mac_command/command_id.rs"))
        },
        Err(e) => Err(e),
    }
}

/// The schema of the capabilities that an association request announces.
pub open spec fn association_request_capability_schema() -> BitFieldView {
    BitFieldView::empty("Capability"@, "Association request capabilities"@)
        .reserved(1)
        .named(
            "device_type"@,
            "Set to one if the device is an FFD, otherwise it is an RFD."@,
            1,
            DomainView::Numeric
                .symbol("ffd_device"@, 1)
                .symbol("rfd_device"@, 0),
        )
        .named(
            "power_source"@,
            "Set to one if the device is connected to Alternating Current, otherwise it is a battery device."@,
            1,
            DomainView::Numeric
                .described(
                    "mains_powered"@,
                    "The device is connected to alternative current mains."@,
                    1,
                )
                .described("battery_powered"@, "The device is powered by a battery pack."@, 0),
        )
        .named(
            "receiver_on_when_idle"@,
            "The device does not disable its receiver to conserve power during idle periods."@,
            1,
            DomainView::Numeric
                .described(
                    "receives_on_idle"@,
                    "The device does not disable its receiver during idle periods."@,
                    1,
                )
                .described(
                    "disables_on_idle"@,
                    "The device disables its receiver to conserve power during idle periods."@,
                    0,
                ),
        )
        .named(
            "association_type"@,
            "Set to one if the device requests fast association."@,
            1,
            DomainView::Numeric
                .symbol("fast_association"@, 1)
                .symbol("slow_association"@, 0),
        )
        .reserved(1)
        .named(
            "security_capability"@,
            "Determines if the device is capable of sending and receiving cryptographically protected MAC frames."@,
            1,
            DomainView::Numeric
                .described(
                    "secure"@,
                    "The device is capable of sending and receiving cryptographically protected MAC frames."@,
                    1,
                )
                .described(
                    "unsecure"@,
                    "The device is incapable of sending and receiving cryptographically protected MAC frames."@,
                    0,
                ),
        )
        .named(
            "allocate_address"@,
            "Determines if the coordinator should allocate a short address as a result of the allocation procedure."@,
            1,
            DomainView::Numeric
                .described(
                    "request_address"@,
                    "The device wishes the coordinator to allocate a short address."@,
                    1,
                )
                .described(
                    "no_request"@,
                    "The device does not request the coordinator to allocate a short address."@,
                    0,
                ),
        )
}

/// The unit that declares the capabilities that an association request
/// announces.
pub open spec fn association_request_capability_unit() -> OutputUnitView {
    OutputUnitView {
        path: "out/mac_command/assoc_request_capability.rs"@,
        declarations: association_request_capability_schema().declarations(),
    }
}

/// The schema of the capabilities that an association request announces is
/// valid: its names are told apart by their lengths and characters, its symbols
/// fit their slots, and its slots fill a container exactly.
pub proof fn lemma_association_request_capability_valid()
    ensures
        association_request_capability_schema().valid(),
{
    reveal_with_fuel(width_before, 9);
    lemma_low_mask_values();
    reveal_strlit("device_type");
    reveal_strlit("power_source");
    reveal_strlit("receiver_on_when_idle");
    reveal_strlit("association_type");
    reveal_strlit("security_capability");
    reveal_strlit("allocate_address");
    reveal_strlit("ffd_device");
    reveal_strlit("rfd_device");
    reveal_strlit("mains_powered");
    reveal_strlit("battery_powered");
    reveal_strlit("receives_on_idle");
    reveal_strlit("disables_on_idle");
    reveal_strlit("fast_association");
    reveal_strlit("slow_association");
    reveal_strlit("secure");
    reveal_strlit("unsecure");
    reveal_strlit("request_address");
    reveal_strlit("no_request");
    assert("device_type"@.len() == 11);
    assert("power_source"@.len() == 12);
    assert("receiver_on_when_idle"@.len() == 21);
    assert("association_type"@.len() == 16);
    assert("security_capability"@.len() == 19);
    assert("allocate_address"@.len() == 16);
    assert("ffd_device"@.len() == 10);
    assert("rfd_device"@.len() == 10);
    assert("mains_powered"@.len() == 13);
    assert("battery_powered"@.len() == 15);
    assert("receives_on_idle"@.len() == 16);
    assert("disables_on_idle"@.len() == 16);
    assert("fast_association"@.len() == 16);
    assert("slow_association"@.len() == 16);
    assert("secure"@.len() == 6);
    assert("unsecure"@.len() == 8);
    assert("request_address"@.len() == 15);
    assert("no_request"@.len() == 10);
    assert("association_type"@[1] == 's');
    assert("allocate_address"@[1] == 'l');
    assert("ffd_device"@[0] == 'f');
    assert("rfd_device"@[0] == 'r');
    assert("receives_on_idle"@[0] == 'r');
    assert("disables_on_idle"@[0] == 'd');
    assert("fast_association"@[0] == 'f');
    assert("slow_association"@[0] == 's');
}

/// Builds and compiles the schema of the capabilities that an association
/// request announces, and returns the unit that declares it.
pub fn render_association_request_capability() -> (r: Result<OutputUnit, SchemaError>)
    ensures
        r is Ok,
        r->Ok_0@ == association_request_capability_unit(),
{
    let mut genfile = GenFile::new();
    let bitfield = BitField::new("Capability", "Association request capabilities")
        .add_reserved(1)
        .add_bit_field(
            "device_type",
            "Set to one if the device is an FFD, otherwise it is an RFD.",
            1,
            Domain::new()
                .add_enum_value("ffd_device", 1)
                .add_enum_value("rfd_device", 0),
        )
        .add_bit_field(
            "power_source",
            "Set to one if the device is connected to Alternating Current, otherwise it is a battery device.",
            1,
            Domain::new()
                .add_enum_value_desc(
                    "mains_powered",
                    "The device is connected to alternative current mains.",
                    1,
                )
                .add_enum_value_desc(
                    "battery_powered",
                    "The device is powered by a battery pack.",
                    0,
                ),
        )
        .add_bit_field(
            "receiver_on_when_idle",
            "The device does not disable its receiver to conserve power during idle periods.",
            1,
            Domain::new()
                .add_enum_value_desc(
                    "receives_on_idle",
                    "The device does not disable its receiver during idle periods.",
                    1,
                )
                .add_enum_value_desc(
                    "disables_on_idle",
                    "The device disables its receiver to conserve power during idle periods.",
                    0,
                ),
        )
        .add_bit_field(
            "association_type",
            "Set to one if the device requests fast association.",
            1,
            Domain::new()
                .add_enum_value("fast_association", 1)
                .add_enum_value("slow_association", 0),
        )
        .add_reserved(1)
        .add_bit_field(
            "security_capability",
            "Determines if the device is capable of sending and receiving cryptographically protected MAC frames.",
            1,
            Domain::new()
                .add_enum_value_desc(
                    "secure",
                    "The device is capable of sending and receiving cryptographically protected MAC frames.",
                    1,
                )
                .add_enum_value_desc(
                    "unsecure",
                    "The device is incapable of sending and receiving cryptographically protected MAC frames.",
                    0,
                ),
        )
        .add_bit_field(
            "allocate_address",
            "Determines if the coordinator should allocate a short address as a result of the allocation procedure.",
            1,
            Domain::new()
                .add_enum_value_desc(
                    "request_address",
                    "The device wishes the coordinator to allocate a short address.",
                    1,
                )
                .add_enum_value_desc(
                    "no_request",
                    "The device does not request the coordinator to allocate a short address.",
                    0,
                ),
        );
    proof {
        lemma_association_request_capability_valid();
    }
    match genfile.add_bitfield(&bitfield) {
        Ok(_) => {
            assert(genfile@ =~= association_request_capability_schema().declarations());
            Ok(genfile.into_unit("out/mac_command/assoc_request_capability.rs"))
        },
        Err(e) => Err(e),
    }
}

/// The schema of the status that an association response reports.
pub open spec fn association_status_schema() -> BitFieldView {
    BitFieldView::empty("Assoc_status"@, "Association status"@)
        .named(
            "association_status"@,
            "The association status after a request."@,
            8,
            DomainView::Numeric
                .described("assoc_success"@, "Association successful."@, 0)
                .described("pan_at_capacity"@, "The PAN is at capacity."@, 1)
                .described("pan_access_denied"@, "PAN access denied."@, 2)
                .described("hopping_duplication"@, "Hopping sequence offset duplication."@, 3)
                .described("fast_assoc_success"@, "Fast association successful."@, 128),
        )
}

/// The unit that declares the status that an association response reports.
pub open spec fn association_status_unit() -> OutputUnitView {
    OutputUnitView {
        path: "out/mac_command/assoc_status.rs"@,
        declarations: association_status_schema().declarations(),
    }
}

/// The schema of the status that an association response reports is valid: its
/// names are told apart by their lengths and characters, its symbols fit their
/// slots, and its slots fill a container exactly.
pub proof fn lemma_association_status_valid()
    ensures
        association_status_schema().valid(),
{
    reveal_with_fuel(width_before, 2);
    lemma_low_mask_values();
    reveal_strlit("assoc_success");
    reveal_strlit("pan_at_capacity");
    reveal_strlit("pan_access_denied");
    reveal_strlit("hopping_duplication");
    reveal_strlit("fast_assoc_success");
    assert("assoc_success"@.len() == 13);
    assert("pan_at_capacity"@.len() == 15);
    assert("pan_access_denied"@.len() == 17);
    assert("hopping_duplication"@.len() == 19);
    assert("fast_assoc_success"@.len() == 18);
}

/// Builds and compiles the schema of the status that an association response
/// reports, and returns the unit that declares it.
pub fn render_association_status() -> (r: Result<OutputUnit, SchemaError>)
    ensures
        r is Ok,
        r->Ok_0@ == association_status_unit(),
{
    let mut genfile = GenFile::new();
    let bitfield = BitField::new("Assoc_status", "Association status")
        .add_bit_field(
            "association_status",
            "The association status after a request.",
            8,
            Domain::new()
                .add_enum_value_desc("assoc_success", "Association successful.", 0)
                .add_enum_value_desc("pan_at_capacity", "The PAN is at capacity.", 1)
                .add_enum_value_desc("pan_access_denied", "PAN access denied.", 2)
                .add_enum_value_desc(
                    "hopping_duplication",
                    "Hopping sequence offset duplication.",
                    3,
                )
                .add_enum_value_desc("fast_assoc_success", "Fast association successful.", 128),
        );
    proof {
        lemma_association_status_valid();
    }
    match genfile.add_bitfield(&bitfield) {
        Ok(_) => {
            assert(genfile@ =~= association_status_schema().declarations());
            Ok(genfile.into_unit("out/mac_command/assoc_status.rs"))
        },
        Err(e) => Err(e),
    }
}

/// The association request: the capabilities of the device that asks.
pub open spec fn assoc_request() -> StructureView {
    StructureView::empty("assoc_request"@).bitfield(
        "capability"@,
        "assoc_request_capability"@,
        1,
    )
}

/// The unit that declares the MAC commands.
pub open spec fn commands_unit() -> OutputUnitView {
    OutputUnitView {
        path: "out/mac_command/commands.rs"@,
        declarations: Seq::empty().push(DeclarationView::Imports).push(
            DeclarationView::Record { schema: assoc_request() },
        ),
    }
}

/// The association request is a sound structure of fixed shape.
pub proof fn lemma_commands_sound()
    ensures
        assoc_request().flat_defect() is None,
{
    reveal_with_fuel(first_flat_defect, 2);
}

/// Builds and compiles the MAC commands, and returns the unit that declares
/// them.
pub fn render_commands() -> (r: Result<OutputUnit, SchemaError>)
    ensures
        r is Ok,
        r->Ok_0@ == commands_unit(),
{
    let mut genfile = GenFile::new();
    genfile.add_struct_imports();
    let assoc_request = Structure::new("assoc_request").add_bitfield(
        "capability",
        "assoc_request_capability",
        1,
    );
    proof {
        lemma_commands_sound();
    }
    genfile.add_struct(&assoc_request)?;
    Ok(genfile.into_unit("out/mac_command/commands.rs"))
}

/// The units of the MAC commands, in the order of their emission.
pub open spec fn mac_command_units() -> Seq<OutputUnitView> {
    Seq::empty()
        .push(mac_command_id_unit())
        .push(association_request_capability_unit())
        .push(association_status_unit())
        .push(commands_unit())
}

/// Builds and compiles every schema of the MAC commands, and returns the units
/// that declare them.
pub fn render() -> (r: Result<Vec<OutputUnit>, SchemaError>)
    ensures
        r is Ok,
        units_view(r->Ok_0@) == mac_command_units(),
{
    let mut units: Vec<OutputUnit> = Vec::new();
    units.push(render_mac_command_id()?);
    units.push(render_association_request_capability()?);
    units.push(render_association_status()?);
    units.push(render_commands()?);
    assert(units_view(units@) =~= mac_command_units());
    Ok(units)
}

} // verus!
