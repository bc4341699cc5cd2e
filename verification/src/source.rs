//! The text of each emitted declaration, and of a whole unit of output.
//!
//! A container becomes a tuple struct around its integer, an enumerated domain
//! an enum with a conversion from the raw integer, and a named slot a pair of
//! accessors. A structure becomes a struct with the codec of its fields, and a
//! variant group an enum with one case for each shape and the dispatch on the
//! discriminant. Names are written as identifiers and descriptions as doc
//! comments of one line. The emitted codecs report their failures by name:
//! `TruncatedInput`, `UndeclaredDiscriminant`, `UnresolvedVariant`.
use vstd::prelude::*;
use vstd::string::StringExecFns;
use crate::bits::low_mask;
use crate::bits::mask_of;
use crate::file::Declaration;
use crate::file::DeclarationView;
use crate::file::OutputUnit;
use crate::file::texts_view;
use crate::generate::bitfield::EnumValue;
use crate::generate::bitfield::EnumValueView;
use crate::generate::bitfield::symbols_view;
use crate::generate::structure::StructField;
use crate::generate::structure::StructFieldView;
use crate::generate::structure::Structure;
use crate::generate::structure::StructureView;
use crate::text::decimal;
use crate::text::decimal_of;
use crate::text::ident;
use crate::text::ident_of;
use crate::text::one_line;
use crate::text::one_line_of;

verus! {

/// The text that the codecs of structures rely on: the conversion of slices
/// into arrays, and the helper that takes a fixed run of bytes from the input
/// or reports that the input is too short.
pub open spec fn imports_text() -> Seq<char> {
    "use core::convert::TryInto;\n\nfn take<const N: usize>(input: &[u8], at: usize) -> Result<[u8; N], &'static str> {\n    input\n        .get(at..)\n        .and_then(|rest| rest.get(..N))\n        .and_then(|run| run.try_into().ok())\n        .ok_or(\"TruncatedInput\")\n}\n"@
}

/// A doc comment of one line, indented by `indent`.
pub open spec fn doc_text(indent: Seq<char>, description: Seq<char>) -> Seq<char> {
    indent + "/// "@ + one_line(description) + "\n"@
}

/// The text of a container's type.
pub open spec fn container_text(name: Seq<char>, description: Seq<char>, bits: u64) -> Seq<char> {
    doc_text(""@, description) + "#[derive(Clone, Copy, Debug, PartialEq, Eq)]\npub struct "@
        + ident(name) + "(pub u"@ + decimal(bits as nat) + ");\n"@
}

/// The name of the type that holds the symbols of a slot.
pub open spec fn symbols_name(container: Seq<char>, slot: Seq<char>) -> Seq<char> {
    ident(container) + "_"@ + ident(slot)
}

/// The line that declares one symbol, after the line of its description if it
/// has one.
pub open spec fn symbol_line(symbol: EnumValueView) -> Seq<char> {
    (match symbol.description {
        Some(description) => doc_text("    "@, description),
        None => ""@,
    }) + "    "@ + ident(symbol.name) + ",\n"@
}

/// The lines that declare the first `n` symbols.
pub open spec fn symbol_lines(symbols: Seq<EnumValueView>, n: int) -> Seq<char>
    decreases n,
{
    if n <= 0 {
        ""@
    } else {
        symbol_lines(symbols, n - 1) + symbol_line(symbols[n - 1])
    }
}

/// The match arm that maps the integer of one symbol to the symbol.
pub open spec fn symbol_arm(symbol: EnumValueView) -> Seq<char> {
    "            "@ + decimal(symbol.value as nat) + " => Ok(Self::"@ + ident(symbol.name)
        + "),\n"@
}

/// The match arms that map the integers of the first `n` symbols to the
/// symbols.
pub open spec fn symbol_arms(symbols: Seq<EnumValueView>, n: int) -> Seq<char>
    decreases n,
{
    if n <= 0 {
        ""@
    } else {
        symbol_arms(symbols, n - 1) + symbol_arm(symbols[n - 1])
    }
}

/// The match arm that maps one symbol to its integer.
pub open spec fn symbol_raw_arm(symbol: EnumValueView) -> Seq<char> {
    "            Self::"@ + ident(symbol.name) + " => "@ + decimal(symbol.value as nat) + ",\n"@
}

/// The match arms that map the first `n` symbols to their integers.
pub open spec fn symbol_raw_arms(symbols: Seq<EnumValueView>, n: int) -> Seq<char>
    decreases n,
{
    if n <= 0 {
        ""@
    } else {
        symbol_raw_arms(symbols, n - 1) + symbol_raw_arm(symbols[n - 1])
    }
}

/// The text of the symbols of an enumerated slot: an enum with one case for
/// each symbol, the conversion that maps an integer to its symbol and fails on
/// any undeclared integer, and the conversion that maps a symbol to its
/// integer.
pub open spec fn symbols_text(
    container: Seq<char>,
    slot: Seq<char>,
    symbols: Seq<EnumValueView>,
) -> Seq<char> {
    "#[derive(Clone, Copy, Debug, PartialEq, Eq)]\npub enum "@ + symbols_name(container, slot)
        + " {\n"@ + symbol_lines(symbols, symbols.len() as int) + "}\n\nimpl "@ + symbols_name(
        container,
        slot,
    )
        + " {\n    pub fn from_raw(raw: u64) -> Result<Self, &'static str> {\n        match raw {\n"@
        + symbol_arms(symbols, symbols.len() as int)
        + "            _ => Err(\"UndeclaredDiscriminant\"),\n        }\n    }\n\n    pub fn raw(self) -> u64 {\n        match self {\n"@
        + symbol_raw_arms(symbols, symbols.len() as int) + "        }\n    }\n}\n"@
}

/// The position that the accessors of a slot shift by: the slot's offset, or
/// zero for a slot without bits, which has no position.
pub open spec fn shift_of(offset: u64, width: u64) -> u64 {
    if width == 0 {
        0
    } else {
        offset
    }
}

/// The expression that reads a slot's integer.
pub open spec fn read_text(offset: u64, width: u64) -> Seq<char> {
    "((self.0 as u64) >> "@ + decimal(shift_of(offset, width) as nat) + ") & "@ + decimal(
        low_mask(width) as nat,
    )
}

/// The accessor that reads a slot.
pub open spec fn getter_text(
    container: Seq<char>,
    slot: Seq<char>,
    offset: u64,
    width: u64,
    symbolic: bool,
) -> Seq<char> {
    if symbolic {
        "    pub fn "@ + ident(slot) + "(&self) -> Result<"@ + symbols_name(container, slot)
            + ", &'static str> {\n        "@ + symbols_name(container, slot) + "::from_raw("@ + read_text(
            offset,
            width,
        ) + ")\n    }\n"@
    } else {
        "    pub fn "@ + ident(slot) + "(&self) -> u64 {\n        "@ + read_text(offset, width)
            + "\n    }\n"@
    }
}

/// The accessor that writes a slot and leaves every other bit as it was.
pub open spec fn setter_text(
    container: Seq<char>,
    bits: u64,
    slot: Seq<char>,
    offset: u64,
    width: u64,
    symbolic: bool,
) -> Seq<char> {
    "    pub fn with_"@ + ident(slot) + "(self, value: "@ + (if symbolic {
        symbols_name(container, slot)
    } else {
        "u64"@
    }) + ") -> Self {\n        Self(((self.0 as u64) & !("@ + decimal(low_mask(width) as nat)
        + " << "@ + decimal(shift_of(offset, width) as nat) + ") | ("@ + (if symbolic {
        "value.raw()"@
    } else {
        "value"@
    }) + " & "@ + decimal(low_mask(width) as nat) + ") << "@ + decimal(
        shift_of(offset, width) as nat,
    ) + ") as u"@ + decimal(bits as nat) + ")\n    }\n"@
}

/// The text of the accessors of a named slot.
pub open spec fn slot_text(
    container: Seq<char>,
    bits: u64,
    slot: Seq<char>,
    description: Seq<char>,
    offset: u64,
    width: u64,
    symbolic: bool,
) -> Seq<char> {
    "impl "@ + ident(container) + " {\n"@ + doc_text("    "@, description) + getter_text(
        container,
        slot,
        offset,
        width,
        symbolic,
    ) + "\n"@ + setter_text(container, bits, slot, offset, width, symbolic) + "}\n"@
}

/// The integer type of `width` bytes, if there is one.
pub open spec fn int_type(width: usize) -> Option<Seq<char>> {
    if width == 1 {
        Some("u8"@)
    } else if width == 2 {
        Some("u16"@)
    } else if width == 4 {
        Some("u32"@)
    } else if width == 8 {
        Some("u64"@)
    } else {
        None
    }
}

/// The type of a run of `width` bytes.
pub open spec fn bytes_type(width: usize) -> Seq<char> {
    "[u8; "@ + decimal(width as nat) + "]"@
}

/// The type of what a field of `width` bytes holds: an integer where there is
/// one of that width, a run of bytes otherwise.
pub open spec fn plain_type(width: usize) -> Seq<char> {
    match int_type(width) {
        Some(integer) => integer,
        None => bytes_type(width),
    }
}

/// The type of a member of a structure.
pub open spec fn member_type(field: StructFieldView) -> Seq<char> {
    match field {
        StructFieldView::FixedInt { width, .. } => plain_type(width),
        StructFieldView::RawBytes { width, .. } => bytes_type(width),
        StructFieldView::EmbeddedBitfield { container, .. } => ident(container),
        StructFieldView::Alternative { group, .. } => ident(group),
    }
}

/// The line that declares the member of one field.
pub open spec fn member_line(field: StructFieldView) -> Seq<char> {
    "    pub "@ + ident(field.name()) + ": "@ + member_type(field) + ",\n"@
}

/// The expression that gives the bytes of a member whose type is that of a
/// field of `width` bytes.
pub open spec fn bytes_text(member: Seq<char>, width: usize) -> Seq<char> {
    if int_type(width) is Some {
        "&"@ + member + ".to_le_bytes()"@
    } else {
        "&"@ + member
    }
}

/// The statement that writes one field.
pub open spec fn encode_step(field: StructFieldView) -> Seq<char> {
    match field {
        StructFieldView::FixedInt { name, width } => "        out.extend_from_slice("@
            + bytes_text("self."@ + ident(name), width) + ");\n"@,
        StructFieldView::RawBytes { name, .. } => "        out.extend_from_slice(&self."@ + ident(
            name,
        ) + ");\n"@,
        StructFieldView::EmbeddedBitfield { name, width, .. } => "        out.extend_from_slice("@
            + bytes_text("self."@ + ident(name) + ".0"@, width) + ");\n"@,
        StructFieldView::Alternative { name, .. } => "        self."@ + ident(name)
            + ".encode(out);\n"@,
    }
}

/// The expression that reads what a field of `width` bytes holds.
pub open spec fn take_text(width: usize) -> Seq<char> {
    match int_type(width) {
        Some(integer) => integer + "::from_le_bytes(take(input, at)?)"@,
        None => "take::<"@ + decimal(width as nat) + ">(input, at)?"@,
    }
}

/// The statements that read one field and move on past it. An alternative field
/// takes the next discriminant and reads the shape that it selects.
pub open spec fn decode_step(field: StructFieldView) -> Seq<char> {
    match field {
        StructFieldView::FixedInt { name, width } => "        let f_"@ + ident(name) + " = "@
            + take_text(width) + ";\n        let at = at + "@ + decimal(width as nat) + ";\n"@,
        StructFieldView::RawBytes { name, width } => "        let f_"@ + ident(name)
            + " = take::<"@ + decimal(width as nat) + ">(input, at)?;\n        let at = at + "@
            + decimal(width as nat) + ";\n"@,
        StructFieldView::EmbeddedBitfield { name, container, width } => "        let f_"@ + ident(
            name,
        ) + " = "@ + ident(container) + "("@ + take_text(width) + ");\n        let at = at + "@
            + decimal(width as nat) + ";\n"@,
        StructFieldView::Alternative { name, group } => "        let (f_"@ + ident(name)
            + ", used) = "@ + ident(group)
            + "::decode(&input[at..], *selectors.get(next).ok_or(\"UnresolvedVariant\")?)?;\n        let at = at + used;\n        let next = next + 1;\n"@,
    }
}

/// The line that hands the value read for one field to its member.
pub open spec fn member_init(field: StructFieldView) -> Seq<char> {
    "            "@ + ident(field.name()) + ": f_"@ + ident(field.name()) + ",\n"@
}

/// The member lines of the first `n` fields.
pub open spec fn member_lines(fields: Seq<StructFieldView>, n: int) -> Seq<char>
    decreases n,
{
    if n <= 0 {
        ""@
    } else {
        member_lines(fields, n - 1) + member_line(fields[n - 1])
    }
}

/// The statements that write the first `n` fields, in declaration order.
pub open spec fn encode_steps(fields: Seq<StructFieldView>, n: int) -> Seq<char>
    decreases n,
{
    if n <= 0 {
        ""@
    } else {
        encode_steps(fields, n - 1) + encode_step(fields[n - 1])
    }
}

/// The statements that read the first `n` fields, in declaration order.
pub open spec fn decode_steps(fields: Seq<StructFieldView>, n: int) -> Seq<char>
    decreases n,
{
    if n <= 0 {
        ""@
    } else {
        decode_steps(fields, n - 1) + decode_step(fields[n - 1])
    }
}

/// The lines that hand the values read for the first `n` fields to their
/// members.
pub open spec fn member_inits(fields: Seq<StructFieldView>, n: int) -> Seq<char>
    decreases n,
{
    if n <= 0 {
        ""@
    } else {
        member_inits(fields, n - 1) + member_init(fields[n - 1])
    }
}

/// The text of a structure: a struct with one member for each field, and the
/// codec that writes and reads the fields in declaration order. The decoder is
/// handed the discriminants of the alternative fields, in order, and gives the
/// structure with the number of bytes that it occupies.
pub open spec fn record_text(schema: StructureView) -> Seq<char> {
    "#[derive(Clone, Debug, PartialEq, Eq)]\npub struct "@ + ident(schema.name) + " {\n"@
        + member_lines(schema.fields, schema.fields.len() as int) + "}\n\nimpl "@ + ident(
        schema.name,
    ) + " {\n    #[allow(unused_variables)]\n    pub fn encode(&self, out: &mut Vec<u8>) {\n"@
        + encode_steps(schema.fields, schema.fields.len() as int)
        + "    }\n\n    #[allow(unused_variables)]\n    pub fn decode(input: &[u8], selectors: &[u64]) -> Result<(Self, usize), &'static str> {\n        let at = 0;\n        let next = 0;\n"@
        + decode_steps(schema.fields, schema.fields.len() as int) + "        Ok((Self {\n"@
        + member_inits(schema.fields, schema.fields.len() as int) + "        }, at))\n    }\n}\n"@
}

/// The lines that declare case `k` of a group: the discriminant that selects
/// it, if it has one, and the case with its shape.
pub open spec fn case_line(cases: Seq<Seq<char>>, tags: Seq<u64>, k: int) -> Seq<char> {
    (if k < tags.len() {
        "    /// Selected by "@ + decimal(tags[k] as nat) + ".\n"@
    } else {
        ""@
    }) + "    "@ + ident(cases[k]) + "("@ + ident(cases[k]) + "),\n"@
}

/// The match arm that writes the shape held by one case.
pub open spec fn case_encode_arm(case: Seq<char>) -> Seq<char> {
    "            Self::"@ + ident(case) + "(shape) => shape.encode(out),\n"@
}

/// The match arm that reads the shape of case `k` when its discriminant is
/// handed in; nothing for a case without a discriminant.
pub open spec fn case_decode_arm(cases: Seq<Seq<char>>, tags: Seq<u64>, k: int) -> Seq<char> {
    if k < tags.len() {
        "            "@ + decimal(tags[k] as nat) + " => "@ + ident(cases[k])
            + "::decode(input, &[]).map(|(shape, used)| (Self::"@ + ident(cases[k])
            + "(shape), used)),\n"@
    } else {
        ""@
    }
}

/// The lines that declare the first `n` cases.
pub open spec fn case_lines(cases: Seq<Seq<char>>, tags: Seq<u64>, n: int) -> Seq<char>
    decreases n,
{
    if n <= 0 {
        ""@
    } else {
        case_lines(cases, tags, n - 1) + case_line(cases, tags, n - 1)
    }
}

/// The match arms that write the first `n` cases.
pub open spec fn case_encode_arms(cases: Seq<Seq<char>>, n: int) -> Seq<char>
    decreases n,
{
    if n <= 0 {
        ""@
    } else {
        case_encode_arms(cases, n - 1) + case_encode_arm(cases[n - 1])
    }
}

/// The match arms that read the first `n` cases.
pub open spec fn case_decode_arms(cases: Seq<Seq<char>>, tags: Seq<u64>, n: int) -> Seq<char>
    decreases n,
{
    if n <= 0 {
        ""@
    } else {
        case_decode_arms(cases, tags, n - 1) + case_decode_arm(cases, tags, n - 1)
    }
}

/// The text of a variant group: an enum with one case for each shape, the codec
/// that writes the shape held, and the dispatch that reads the shape that a
/// discriminant selects and fails on a discriminant that selects none.
pub open spec fn variants_text(name: Seq<char>, cases: Seq<Seq<char>>, tags: Seq<u64>) -> Seq<
    char,
> {
    "#[derive(Clone, Debug, PartialEq, Eq)]\npub enum "@ + ident(name) + " {\n"@ + case_lines(
        cases,
        tags,
        cases.len() as int,
    ) + "}\n\nimpl "@ + ident(name)
        + " {\n    #[allow(unused_variables)]\n    pub fn encode(&self, out: &mut Vec<u8>) {\n        match self {\n"@
        + case_encode_arms(cases, cases.len() as int)
        + "        }\n    }\n\n    pub fn decode(input: &[u8], selector: u64) -> Result<(Self, usize), &'static str> {\n        match selector {\n"@
        + case_decode_arms(cases, tags, cases.len() as int)
        + "            _ => Err(\"UnresolvedVariant\"),\n        }\n    }\n}\n"@
}

impl DeclarationView {
    /// The text of the declaration.
    pub open spec fn source(self) -> Seq<char> {
        match self {
            DeclarationView::Imports => imports_text(),
            DeclarationView::Container { name, description, bits } => container_text(
                name,
                description,
                bits,
            ),
            DeclarationView::Symbols { container, slot, symbols } => symbols_text(
                container,
                slot,
                symbols,
            ),
            DeclarationView::Slot {
                container,
                bits,
                slot,
                description,
                offset,
                width,
                symbolic,
            } => slot_text(container, bits, slot, description, offset, width, symbolic),
            DeclarationView::Record { schema } => record_text(schema),
            DeclarationView::Variants { name, cases, tags } => variants_text(name, cases, tags),
        }
    }
}

/// The text of the first `n` declarations of a unit, each followed by an empty
/// line.
pub open spec fn unit_text(declarations: Seq<DeclarationView>, n: int) -> Seq<char>
    decreases n,
{
    if n <= 0 {
        ""@
    } else {
        unit_text(declarations, n - 1) + declarations[n - 1].source() + "\n"@
    }
}

/// A text that holds nothing.
fn nothing() -> (text: String)
    ensures
        text@ == ""@,
{
    "".to_owned()
}

/// Computes [`doc_text`].
fn doc_of(indent: &str, description: &String) -> (text: String)
    ensures
        text@ == doc_text(indent@, description@),
{
    let mut text = indent.to_owned();
    text.append("/// ");
    text.append(one_line_of(description.as_str()).as_str());
    text.append("\n");
    text
}

/// Computes [`symbols_name`].
fn symbols_name_of(container: &String, slot: &String) -> (text: String)
    ensures
        text@ == symbols_name(container@, slot@),
{
    let mut text = ident_of(container.as_str());
    text.append("_");
    text.append(ident_of(slot.as_str()).as_str());
    text
}

/// Computes [`symbol_line`].
fn symbol_line_of(symbol: &EnumValue) -> (text: String)
    ensures
        text@ == symbol_line(symbol@),
{
    let mut text = match &symbol.description {
        Some(description) => doc_of("    ", description),
        None => nothing(),
    };
    text.append("    ");
    text.append(ident_of(symbol.name.as_str()).as_str());
    text.append(",\n");
    text
}

/// Computes [`symbol_arm`].
fn symbol_arm_of(symbol: &EnumValue) -> (text: String)
    ensures
        text@ == symbol_arm(symbol@),
{
    let mut text = "            ".to_owned();
    text.append(decimal_of(symbol.value).as_str());
    text.append(" => Ok(Self::");
    text.append(ident_of(symbol.name.as_str()).as_str());
    text.append("),\n");
    text
}

/// Computes [`symbol_raw_arm`].
fn symbol_raw_arm_of(symbol: &EnumValue) -> (text: String)
    ensures
        text@ == symbol_raw_arm(symbol@),
{
    let mut text = "            Self::".to_owned();
    text.append(ident_of(symbol.name.as_str()).as_str());
    text.append(" => ");
    text.append(decimal_of(symbol.value).as_str());
    text.append(",\n");
    text
}

/// Computes [`symbols_text`].
fn symbols_of(container: &String, slot: &String, symbols: &Vec<EnumValue>) -> (text: String)
    ensures
        text@ == symbols_text(container@, slot@, symbols_view(symbols@)),
{
    let mut lines = nothing();
    let mut arms = nothing();
    let mut raws = nothing();
    let mut j: usize = 0;
    while j < symbols.len()
        invariant
            j <= symbols.len(),
            lines@ == symbol_lines(symbols_view(symbols@), j as int),
            arms@ == symbol_arms(symbols_view(symbols@), j as int),
            raws@ == symbol_raw_arms(symbols_view(symbols@), j as int),
        decreases symbols.len() - j,
    {
        lines.append(symbol_line_of(&symbols[j]).as_str());
        arms.append(symbol_arm_of(&symbols[j]).as_str());
        raws.append(symbol_raw_arm_of(&symbols[j]).as_str());
        j += 1;
    }
    let name = symbols_name_of(container, slot);
    let mut text = "#[derive(Clone, Copy, Debug, PartialEq, Eq)]\npub enum ".to_owned();
    text.append(name.as_str());
    text.append(" {\n");
    text.append(lines.as_str());
    text.append("}\n\nimpl ");
    text.append(name.as_str());
    text.append(
        " {\n    pub fn from_raw(raw: u64) -> Result<Self, &'static str> {\n        match raw {\n",
    );
    text.append(arms.as_str());
    text.append(
        "            _ => Err(\"UndeclaredDiscriminant\"),\n        }\n    }\n\n    pub fn raw(self) -> u64 {\n        match self {\n",
    );
    text.append(raws.as_str());
    text.append("        }\n    }\n}\n");
    text
}

/// Computes [`shift_of`].
fn shift(offset: u64, width: u64) -> (s: u64)
    ensures
        s == shift_of(offset, width),
{
    if width == 0 {
        0
    } else {
        offset
    }
}

/// Computes [`read_text`].
fn read_of(offset: u64, width: u64) -> (text: String)
    ensures
        text@ == read_text(offset, width),
{
    let mut text = "((self.0 as u64) >> ".to_owned();
    text.append(decimal_of(shift(offset, width)).as_str());
    text.append(") & ");
    text.append(decimal_of(mask_of(width)).as_str());
    text
}

/// Computes [`getter_text`].
fn getter_of(container: &String, slot: &String, offset: u64, width: u64, symbolic: bool) -> (text:
    String)
    ensures
        text@ == getter_text(container@, slot@, offset, width, symbolic),
{
    let mut text = "    pub fn ".to_owned();
    text.append(ident_of(slot.as_str()).as_str());
    if symbolic {
        let name = symbols_name_of(container, slot);
        text.append("(&self) -> Result<");
        text.append(name.as_str());
        text.append(", &'static str> {\n        ");
        text.append(name.as_str());
        text.append("::from_raw(");
        text.append(read_of(offset, width).as_str());
        text.append(")\n    }\n");
    } else {
        text.append("(&self) -> u64 {\n        ");
        text.append(read_of(offset, width).as_str());
        text.append("\n    }\n");
    }
    text
}

/// Computes [`setter_text`].
fn setter_of(
    container: &String,
    bits: u64,
    slot: &String,
    offset: u64,
    width: u64,
    symbolic: bool,
) -> (text: String)
    ensures
        text@ == setter_text(container@, bits, slot@, offset, width, symbolic),
{
    let argument = if symbolic {
        symbols_name_of(container, slot)
    } else {
        "u64".to_owned()
    };
    let mask = decimal_of(mask_of(width));
    let position = decimal_of(shift(offset, width));
    let mut text = "    pub fn with_".to_owned();
    text.append(ident_of(slot.as_str()).as_str());
    text.append("(self, value: ");
    text.append(argument.as_str());
    text.append(") -> Self {\n        Self(((self.0 as u64) & !(");
    text.append(mask.as_str());
    text.append(" << ");
    text.append(position.as_str());
    text.append(") | (");
    text.append(if symbolic {
        "value.raw()"
    } else {
        "value"
    });
    text.append(" & ");
    text.append(mask.as_str());
    text.append(") << ");
    text.append(position.as_str());
    text.append(") as u");
    text.append(decimal_of(bits).as_str());
    text.append(")\n    }\n");
    text
}

/// Computes [`int_type`].
fn int_type_of(width: usize) -> (text: Option<&'static str>)
    ensures
        match text {
            Some(integer) => int_type(width) == Some(integer@),
            None => int_type(width) is None,
        },
{
    if width == 1 {
        Some("u8")
    } else if width == 2 {
        Some("u16")
    } else if width == 4 {
        Some("u32")
    } else if width == 8 {
        Some("u64")
    } else {
        None
    }
}

/// Computes [`bytes_type`].
fn bytes_type_of(width: usize) -> (text: String)
    ensures
        text@ == bytes_type(width),
{
    let mut text = "[u8; ".to_owned();
    text.append(decimal_of(width as u64).as_str());
    text.append("]");
    text
}

/// Computes [`plain_type`].
fn plain_type_of(width: usize) -> (text: String)
    ensures
        text@ == plain_type(width),
{
    match int_type_of(width) {
        Some(integer) => integer.to_owned(),
        None => bytes_type_of(width),
    }
}

/// Computes [`member_type`].
fn member_type_of(field: &StructField) -> (text: String)
    ensures
        text@ == member_type(field@),
{
    match field {
        StructField::FixedInt { width, .. } => plain_type_of(*width),
        StructField::RawBytes { width, .. } => bytes_type_of(*width),
        StructField::EmbeddedBitfield { container, .. } => ident_of(container.as_str()),
        StructField::Alternative { group, .. } => ident_of(group.as_str()),
    }
}

/// Computes [`member_line`].
fn member_line_of(field: &StructField) -> (text: String)
    ensures
        text@ == member_line(field@),
{
    let mut text = "    pub ".to_owned();
    text.append(ident_of(field.name().as_str()).as_str());
    text.append(": ");
    text.append(member_type_of(field).as_str());
    text.append(",\n");
    text
}

/// Computes [`bytes_text`].
fn member_bytes_of(member: &String, width: usize) -> (text: String)
    ensures
        text@ == bytes_text(member@, width),
{
    let mut text = "&".to_owned();
    text.append(member.as_str());
    if int_type_of(width).is_some() {
        text.append(".to_le_bytes()");
    }
    text
}

/// Computes [`encode_step`].
fn encode_step_of(field: &StructField) -> (text: String)
    ensures
        text@ == encode_step(field@),
{
    match field {
        StructField::FixedInt { name, width } => {
            let mut member = "self.".to_owned();
            member.append(ident_of(name.as_str()).as_str());
            let mut text = "        out.extend_from_slice(".to_owned();
            text.append(member_bytes_of(&member, *width).as_str());
            text.append(");\n");
            text
        },
        StructField::RawBytes { name, .. } => {
            let mut text = "        out.extend_from_slice(&self.".to_owned();
            text.append(ident_of(name.as_str()).as_str());
            text.append(");\n");
            text
        },
        StructField::EmbeddedBitfield { name, width, .. } => {
            let mut member = "self.".to_owned();
            member.append(ident_of(name.as_str()).as_str());
            member.append(".0");
            let mut text = "        out.extend_from_slice(".to_owned();
            text.append(member_bytes_of(&member, *width).as_str());
            text.append(");\n");
            text
        },
        StructField::Alternative { name, .. } => {
            let mut text = "        self.".to_owned();
            text.append(ident_of(name.as_str()).as_str());
            text.append(".encode(out);\n");
            text
        },
    }
}

/// Computes [`take_text`].
fn take_of(width: usize) -> (text: String)
    ensures
        text@ == take_text(width),
{
    match int_type_of(width) {
        Some(integer) => {
            let mut text = integer.to_owned();
            text.append("::from_le_bytes(take(input, at)?)");
            text
        },
        None => {
            let mut text = "take::<".to_owned();
            text.append(decimal_of(width as u64).as_str());
            text.append(">(input, at)?");
            text
        },
    }
}

/// Computes [`decode_step`].
fn decode_step_of(field: &StructField) -> (text: String)
    ensures
        text@ == decode_step(field@),
{
    match field {
        StructField::FixedInt { name, width } => {
            let mut text = "        let f_".to_owned();
            text.append(ident_of(name.as_str()).as_str());
            text.append(" = ");
            text.append(take_of(*width).as_str());
            text.append(";\n        let at = at + ");
            text.append(decimal_of(*width as u64).as_str());
            text.append(";\n");
            text
        },
        StructField::RawBytes { name, width } => {
            let mut text = "        let f_".to_owned();
            text.append(ident_of(name.as_str()).as_str());
            text.append(" = take::<");
            text.append(decimal_of(*width as u64).as_str());
            text.append(">(input, at)?;\n        let at = at + ");
            text.append(decimal_of(*width as u64).as_str());
            text.append(";\n");
            text
        },
        StructField::EmbeddedBitfield { name, container, width } => {
            let mut text = "        let f_".to_owned();
            text.append(ident_of(name.as_str()).as_str());
            text.append(" = ");
            text.append(ident_of(container.as_str()).as_str());
            text.append("(");
            text.append(take_of(*width).as_str());
            text.append(");\n        let at = at + ");
            text.append(decimal_of(*width as u64).as_str());
            text.append(";\n");
            text
        },
        StructField::Alternative { name, group } => {
            let mut text = "        let (f_".to_owned();
            text.append(ident_of(name.as_str()).as_str());
            text.append(", used) = ");
            text.append(ident_of(group.as_str()).as_str());
            text.append(
                "::decode(&input[at..], *selectors.get(next).ok_or(\"UnresolvedVariant\")?)?;\n        let at = at + used;\n        let next = next + 1;\n",
            );
            text
        },
    }
}

/// Computes [`member_init`].
fn member_init_of(field: &StructField) -> (text: String)
    ensures
        text@ == member_init(field@),
{
    let name = ident_of(field.name().as_str());
    let mut text = "            ".to_owned();
    text.append(name.as_str());
    text.append(": f_");
    text.append(name.as_str());
    text.append(",\n");
    text
}

/// Computes [`record_text`].
fn record_of(schema: &Structure) -> (text: String)
    ensures
        text@ == record_text(schema@),
{
    let mut members = nothing();
    let mut writes = nothing();
    let mut reads = nothing();
    let mut inits = nothing();
    let mut i: usize = 0;
    while i < schema.fields.len()
        invariant
            i <= schema.fields.len(),
            members@ == member_lines(schema@.fields, i as int),
            writes@ == encode_steps(schema@.fields, i as int),
            reads@ == decode_steps(schema@.fields, i as int),
            inits@ == member_inits(schema@.fields, i as int),
        decreases schema.fields.len() - i,
    {
        let field = &schema.fields[i];
        members.append(member_line_of(field).as_str());
        writes.append(encode_step_of(field).as_str());
        reads.append(decode_step_of(field).as_str());
        inits.append(member_init_of(field).as_str());
        i += 1;
    }
    let name = ident_of(schema.name.as_str());
    let mut text = "#[derive(Clone, Debug, PartialEq, Eq)]\npub struct ".to_owned();
    text.append(name.as_str());
    text.append(" {\n");
    text.append(members.as_str());
    text.append("}\n\nimpl ");
    text.append(name.as_str());
    text.append(
        " {\n    #[allow(unused_variables)]\n    pub fn encode(&self, out: &mut Vec<u8>) {\n",
    );
    text.append(writes.as_str());
    text.append(
        "    }\n\n    #[allow(unused_variables)]\n    pub fn decode(input: &[u8], selectors: &[u64]) -> Result<(Self, usize), &'static str> {\n        let at = 0;\n        let next = 0;\n",
    );
    text.append(reads.as_str());
    text.append("        Ok((Self {\n");
    text.append(inits.as_str());
    text.append("        }, at))\n    }\n}\n");
    text
}

/// Computes [`case_line`].
fn case_line_of(cases: &Vec<String>, tags: &Vec<u64>, k: usize) -> (text: String)
    requires
        k < cases.len(),
    ensures
        text@ == case_line(texts_view(cases@), tags@, k as int),
{
    let case = ident_of(cases[k].as_str());
    let mut text = if k < tags.len() {
        let mut doc = "    /// Selected by ".to_owned();
        doc.append(decimal_of(tags[k]).as_str());
        doc.append(".\n");
        doc
    } else {
        nothing()
    };
    text.append("    ");
    text.append(case.as_str());
    text.append("(");
    text.append(case.as_str());
    text.append("),\n");
    text
}

/// Computes [`case_encode_arm`].
fn case_encode_arm_of(case: &String) -> (text: String)
    ensures
        text@ == case_encode_arm(case@),
{
    let mut text = "            Self::".to_owned();
    text.append(ident_of(case.as_str()).as_str());
    text.append("(shape) => shape.encode(out),\n");
    text
}

/// Computes [`case_decode_arm`].
fn case_decode_arm_of(cases: &Vec<String>, tags: &Vec<u64>, k: usize) -> (text: String)
    requires
        k < cases.len(),
    ensures
        text@ == case_decode_arm(texts_view(cases@), tags@, k as int),
{
    if k < tags.len() {
        let case = ident_of(cases[k].as_str());
        let mut text = "            ".to_owned();
        text.append(decimal_of(tags[k]).as_str());
        text.append(" => ");
        text.append(case.as_str());
        text.append("::decode(input, &[]).map(|(shape, used)| (Self::");
        text.append(case.as_str());
        text.append("(shape), used)),\n");
        text
    } else {
        nothing()
    }
}

/// Computes [`variants_text`].
fn variants_of(name: &String, cases: &Vec<String>, tags: &Vec<u64>) -> (text: String)
    ensures
        text@ == variants_text(name@, texts_view(cases@), tags@),
{
    let mut lines = nothing();
    let mut writes = nothing();
    let mut reads = nothing();
    let mut k: usize = 0;
    while k < cases.len()
        invariant
            k <= cases.len(),
            lines@ == case_lines(texts_view(cases@), tags@, k as int),
            writes@ == case_encode_arms(texts_view(cases@), k as int),
            reads@ == case_decode_arms(texts_view(cases@), tags@, k as int),
        decreases cases.len() - k,
    {
        lines.append(case_line_of(cases, tags, k).as_str());
        writes.append(case_encode_arm_of(&cases[k]).as_str());
        reads.append(case_decode_arm_of(cases, tags, k).as_str());
        k += 1;
    }
    let group = ident_of(name.as_str());
    let mut text = "#[derive(Clone, Debug, PartialEq, Eq)]\npub enum ".to_owned();
    text.append(group.as_str());
    text.append(" {\n");
    text.append(lines.as_str());
    text.append("}\n\nimpl ");
    text.append(group.as_str());
    text.append(
        " {\n    #[allow(unused_variables)]\n    pub fn encode(&self, out: &mut Vec<u8>) {\n        match self {\n",
    );
    text.append(writes.as_str());
    text.append(
        "        }\n    }\n\n    pub fn decode(input: &[u8], selector: u64) -> Result<(Self, usize), &'static str> {\n        match selector {\n",
    );
    text.append(reads.as_str());
    text.append("            _ => Err(\"UnresolvedVariant\"),\n        }\n    }\n}\n");
    text
}

impl Declaration {
    /// The text of the declaration.
    pub fn source(&self) -> (text: String)
        ensures
            text@ == self@.source(),
    {
        match self {
            Declaration::Imports => "use core::convert::TryInto;\n\nfn take<const N: usize>(input: &[u8], at: usize) -> Result<[u8; N], &'static str> {\n    input\n        .get(at..)\n        .and_then(|rest| rest.get(..N))\n        .and_then(|run| run.try_into().ok())\n        .ok_or(\"TruncatedInput\")\n}\n".to_owned(),
            Declaration::Container { name, description, bits } => {
                let mut text = doc_of("", description);
                text.append("#[derive(Clone, Copy, Debug, PartialEq, Eq)]\npub struct ");
                text.append(ident_of(name.as_str()).as_str());
                text.append("(pub u");
                text.append(decimal_of(*bits).as_str());
                text.append(");\n");
                text
            },
            Declaration::Symbols { container, slot, symbols } => symbols_of(
                container,
                slot,
                symbols,
            ),
            Declaration::Slot { container, bits, slot, description, offset, width, symbolic } => {
                let mut text = "impl ".to_owned();
                text.append(ident_of(container.as_str()).as_str());
                text.append(" {\n");
                text.append(doc_of("    ", description).as_str());
                text.append(getter_of(container, slot, *offset, *width, *symbolic).as_str());
                text.append("\n");
                text.append(
                    setter_of(container, *bits, slot, *offset, *width, *symbolic).as_str(),
                );
                text.append("}\n");
                text
            },
            Declaration::Record { schema } => record_of(schema),
            Declaration::Variants { name, cases, tags } => variants_of(name, cases, tags),
        }
    }
}

impl OutputUnit {
    /// The text of the unit: that of each declaration in order, each followed
    /// by an empty line.
    pub fn source(&self) -> (text: String)
        ensures
            text@ == unit_text(self@.declarations, self@.declarations.len() as int),
    {
        let mut text = nothing();
        let mut i: usize = 0;
        while i < self.declarations.len()
            invariant
                i <= self.declarations.len(),
                text@ == unit_text(self@.declarations, i as int),
            decreases self.declarations.len() - i,
        {
            text.append(self.declarations[i].source().as_str());
            text.append("\n");
            i += 1;
        }
        text
    }
}

} // verus!
