#![allow(non_camel_case_types)]
#![allow(dead_code)]
#![allow(unused_imports)]

use core::convert::TryInto;

use framegen::error::CodecError;
use framegen::file::GenFile;
use framegen::generate::bitfield::BitField;
use framegen::generate::bitfield::Domain;
use framegen::generate::bitlayout::SlotValue;
use framegen::generate::structlayout::FieldValue;
use framegen::generate::structlayout::PlainValue;
use framegen::generate::structure::AlternativeOptions;
use framegen::generate::structure::Alternatives;
use framegen::generate::structure::SimpleStructure;
use framegen::generate::structure::Structure;

fn flags_schema() -> BitField {
    BitField::new("flags", "The flags of a frame.")
        .add_bit_field(
            "addr",
            "Whether an address follows.",
            1,
            Domain::new()
                .add_enum_value("absent", 0)
                .add_enum_value_desc("present", "An address follows.", 1),
        )
        .add_bit_field("count", "How many.", 3, Domain::new().numeric())
        .add_reserved(4)
}

fn container_text() -> String {
    let mut file = GenFile::new();
    file.add_bitfield(&flags_schema()).unwrap();
    file.into_unit("out/flags.rs").source()
}

fn address_group() -> AlternativeOptions {
    AlternativeOptions::new("address", &Structure::new("addr_none"))
        .insert_type(&SimpleStructure::new("addr_short", "address", 2))
}

fn hdr_schema() -> Structure {
    Structure::new("hdr")
        .add_bitfield("flags", "flags", 1)
        .add_u8_field("seq")
        .add_u16_field("pan")
        .add_u32_field("stamp")
        .add_u64_field("serial")
        .add_bytes_field("pad", 3)
        .add_alt_field("addr", &address_group())
}

fn structure_text() -> String {
    let alternatives = Alternatives::new().insert(&address_group());
    let mut file = GenFile::new();
    file.add_struct_imports();
    file.add_struct(&Structure::new("addr_none")).unwrap();
    file.add_struct_simple(&SimpleStructure::new("addr_short", "address", 2)).unwrap();
    file.add_alternatives(&alternatives).unwrap();
    file.add_struct_with_alts(&hdr_schema(), &alternatives).unwrap();
    file.into_unit("out/hdr.rs").source()
}

// What follows, up to the tests, is the text that the library emits for the
// schemas above, taken over character by character, so that it is compiled
// and run here.

/// The flags of a frame.
#[derive(Clone, Copy, Debug, PartialEq, Eq)]
pub struct flags(pub u8);

#[derive(Clone, Copy, Debug, PartialEq, Eq)]
pub enum flags_addr {
    absent,
    /// An address follows.
    present,
}

impl flags_addr {
    pub fn from_raw(raw: u64) -> Result<Self, &'static str> {
        match raw {
            0 => Ok(Self::absent),
            1 => Ok(Self::present),
            _ => Err("UndeclaredDiscriminant"),
        }
    }

    pub fn raw(self) -> u64 {
        match self {
            Self::absent => 0,
            Self::present => 1,
        }
    }
}

impl flags {
    /// Whether an address follows.
    pub fn addr(&self) -> Result<flags_addr, &'static str> {
        flags_addr::from_raw(((self.0 as u64) >> 0) & 1)
    }

    pub fn with_addr(self, value: flags_addr) -> Self {
        Self(((self.0 as u64) & !(1 << 0) | (value.raw() & 1) << 0) as u8)
    }
}

impl flags {
    /// How many.
    pub fn count(&self) -> u64 {
        ((self.0 as u64) >> 1) & 7
    }

    pub fn with_count(self, value: u64) -> Self {
        Self(((self.0 as u64) & !(7 << 1) | (value & 7) << 1) as u8)
    }
}


fn take<const N: usize>(input: &[u8], at: usize) -> Result<[u8; N], &'static str> {
    input
        .get(at..)
        .and_then(|rest| rest.get(..N))
        .and_then(|run| run.try_into().ok())
        .ok_or("TruncatedInput")
}

#[derive(Clone, Debug, PartialEq, Eq)]
pub struct addr_none {
}

impl addr_none {
    #[allow(unused_variables)]
    pub fn encode(&self, out: &mut Vec<u8>) {
    }

    #[allow(unused_variables)]
    pub fn decode(input: &[u8], selectors: &[u64]) -> Result<(Self, usize), &'static str> {
        let at = 0;
        let next = 0;
        Ok((Self {
        }, at))
    }
}

#[derive(Clone, Debug, PartialEq, Eq)]
pub struct addr_short {
    pub address: [u8; 2],
}

impl addr_short {
    #[allow(unused_variables)]
    pub fn encode(&self, out: &mut Vec<u8>) {
        out.extend_from_slice(&self.address);
    }

    #[allow(unused_variables)]
    pub fn decode(input: &[u8], selectors: &[u64]) -> Result<(Self, usize), &'static str> {
        let at = 0;
        let next = 0;
        let f_address = take::<2>(input, at)?;
        let at = at + 2;
        Ok((Self {
            address: f_address,
        }, at))
    }
}

#[derive(Clone, Debug, PartialEq, Eq)]
pub enum address {
    /// Selected by 0.
    addr_none(addr_none),
    /// Selected by 1.
    addr_short(addr_short),
}

impl address {
    #[allow(unused_variables)]
    pub fn encode(&self, out: &mut Vec<u8>) {
        match self {
            Self::addr_none(shape) => shape.encode(out),
            Self::addr_short(shape) => shape.encode(out),
        }
    }

    pub fn decode(input: &[u8], selector: u64) -> Result<(Self, usize), &'static str> {
        match selector {
            0 => addr_none::decode(input, &[]).map(|(shape, used)| (Self::addr_none(shape), used)),
            1 => addr_short::decode(input, &[]).map(|(shape, used)| (Self::addr_short(shape), used)),
            _ => Err("UnresolvedVariant"),
        }
    }
}

#[derive(Clone, Debug, PartialEq, Eq)]
pub struct hdr {
    pub flags: flags,
    pub seq: u8,
    pub pan: u16,
    pub stamp: u32,
    pub serial: u64,
    pub pad: [u8; 3],
    pub addr: address,
}

impl hdr {
    #[allow(unused_variables)]
    pub fn encode(&self, out: &mut Vec<u8>) {
        out.extend_from_slice(&self.flags.0.to_le_bytes());
        out.extend_from_slice(&self.seq.to_le_bytes());
        out.extend_from_slice(&self.pan.to_le_bytes());
        out.extend_from_slice(&self.stamp.to_le_bytes());
        out.extend_from_slice(&self.serial.to_le_bytes());
        out.extend_from_slice(&self.pad);
        self.addr.encode(out);
    }

    #[allow(unused_variables)]
    pub fn decode(input: &[u8], selectors: &[u64]) -> Result<(Self, usize), &'static str> {
        let at = 0;
        let next = 0;
        let f_flags = flags(u8::from_le_bytes(take(input, at)?));
        let at = at + 1;
        let f_seq = u8::from_le_bytes(take(input, at)?);
        let at = at + 1;
        let f_pan = u16::from_le_bytes(take(input, at)?);
        let at = at + 2;
        let f_stamp = u32::from_le_bytes(take(input, at)?);
        let at = at + 4;
        let f_serial = u64::from_le_bytes(take(input, at)?);
        let at = at + 8;
        let f_pad = take::<3>(input, at)?;
        let at = at + 3;
        let (f_addr, used) = address::decode(&input[at..], *selectors.get(next).ok_or("UnresolvedVariant")?)?;
        let at = at + used;
        let next = next + 1;
        Ok((Self {
            flags: f_flags,
            seq: f_seq,
            pan: f_pan,
            stamp: f_stamp,
            serial: f_serial,
            pad: f_pad,
            addr: f_addr,
        }, at))
    }
}


fn emitted_container() -> String {
    let lines = [
        "/// The flags of a frame.",
        "#[derive(Clone, Copy, Debug, PartialEq, Eq)]",
        "pub struct flags(pub u8);",
        "",
        "#[derive(Clone, Copy, Debug, PartialEq, Eq)]",
        "pub enum flags_addr {",
        "    absent,",
        "    /// An address follows.",
        "    present,",
        "}",
        "",
        "impl flags_addr {",
        "    pub fn from_raw(raw: u64) -> Result<Self, &'static str> {",
        "        match raw {",
        "            0 => Ok(Self::absent),",
        "            1 => Ok(Self::present),",
        "            _ => Err(\"UndeclaredDiscriminant\"),",
        "        }",
        "    }",
        "",
        "    pub fn raw(self) -> u64 {",
        "        match self {",
        "            Self::absent => 0,",
        "            Self::present => 1,",
        "        }",
        "    }",
        "}",
        "",
        "impl flags {",
        "    /// Whether an address follows.",
        "    pub fn addr(&self) -> Result<flags_addr, &'static str> {",
        "        flags_addr::from_raw(((self.0 as u64) >> 0) & 1)",
        "    }",
        "",
        "    pub fn with_addr(self, value: flags_addr) -> Self {",
        "        Self(((self.0 as u64) & !(1 << 0) | (value.raw() & 1) << 0) as u8)",
        "    }",
        "}",
        "",
        "impl flags {",
        "    /// How many.",
        "    pub fn count(&self) -> u64 {",
        "        ((self.0 as u64) >> 1) & 7",
        "    }",
        "",
        "    pub fn with_count(self, value: u64) -> Self {",
        "        Self(((self.0 as u64) & !(7 << 1) | (value & 7) << 1) as u8)",
        "    }",
        "}",
        "",
    ];
    lines.iter().map(|line| format!("{}\n", line)).collect()
}

fn emitted_structure() -> String {
    let lines = [
        "use core::convert::TryInto;",
        "",
        "fn take<const N: usize>(input: &[u8], at: usize) -> Result<[u8; N], &'static str> {",
        "    input",
        "        .get(at..)",
        "        .and_then(|rest| rest.get(..N))",
        "        .and_then(|run| run.try_into().ok())",
        "        .ok_or(\"TruncatedInput\")",
        "}",
        "",
        "#[derive(Clone, Debug, PartialEq, Eq)]",
        "pub struct addr_none {",
        "}",
        "",
        "impl addr_none {",
        "    #[allow(unused_variables)]",
        "    pub fn encode(&self, out: &mut Vec<u8>) {",
        "    }",
        "",
        "    #[allow(unused_variables)]",
        "    pub fn decode(input: &[u8], selectors: &[u64]) -> Result<(Self, usize), &'static str> {",
        "        let at = 0;",
        "        let next = 0;",
        "        Ok((Self {",
        "        }, at))",
        "    }",
        "}",
        "",
        "#[derive(Clone, Debug, PartialEq, Eq)]",
        "pub struct addr_short {",
        "    pub address: [u8; 2],",
        "}",
        "",
        "impl addr_short {",
        "    #[allow(unused_variables)]",
        "    pub fn encode(&self, out: &mut Vec<u8>) {",
        "        out.extend_from_slice(&self.address);",
        "    }",
        "",
        "    #[allow(unused_variables)]",
        "    pub fn decode(input: &[u8], selectors: &[u64]) -> Result<(Self, usize), &'static str> {",
        "        let at = 0;",
        "        let next = 0;",
        "        let f_address = take::<2>(input, at)?;",
        "        let at = at + 2;",
        "        Ok((Self {",
        "            address: f_address,",
        "        }, at))",
        "    }",
        "}",
        "",
        "#[derive(Clone, Debug, PartialEq, Eq)]",
        "pub enum address {",
        "    /// Selected by 0.",
        "    addr_none(addr_none),",
        "    /// Selected by 1.",
        "    addr_short(addr_short),",
        "}",
        "",
        "impl address {",
        "    #[allow(unused_variables)]",
        "    pub fn encode(&self, out: &mut Vec<u8>) {",
        "        match self {",
        "            Self::addr_none(shape) => shape.encode(out),",
        "            Self::addr_short(shape) => shape.encode(out),",
        "        }",
        "    }",
        "",
        "    pub fn decode(input: &[u8], selector: u64) -> Result<(Self, usize), &'static str> {",
        "        match selector {",
        "            0 => addr_none::decode(input, &[]).map(|(shape, used)| (Self::addr_none(shape), used)),",
        "            1 => addr_short::decode(input, &[]).map(|(shape, used)| (Self::addr_short(shape), used)),",
        "            _ => Err(\"UnresolvedVariant\"),",
        "        }",
        "    }",
        "}",
        "",
        "#[derive(Clone, Debug, PartialEq, Eq)]",
        "pub struct hdr {",
        "    pub flags: flags,",
        "    pub seq: u8,",
        "    pub pan: u16,",
        "    pub stamp: u32,",
        "    pub serial: u64,",
        "    pub pad: [u8; 3],",
        "    pub addr: address,",
        "}",
        "",
        "impl hdr {",
        "    #[allow(unused_variables)]",
        "    pub fn encode(&self, out: &mut Vec<u8>) {",
        "        out.extend_from_slice(&self.flags.0.to_le_bytes());",
        "        out.extend_from_slice(&self.seq.to_le_bytes());",
        "        out.extend_from_slice(&self.pan.to_le_bytes());",
        "        out.extend_from_slice(&self.stamp.to_le_bytes());",
        "        out.extend_from_slice(&self.serial.to_le_bytes());",
        "        out.extend_from_slice(&self.pad);",
        "        self.addr.encode(out);",
        "    }",
        "",
        "    #[allow(unused_variables)]",
        "    pub fn decode(input: &[u8], selectors: &[u64]) -> Result<(Self, usize), &'static str> {",
        "        let at = 0;",
        "        let next = 0;",
        "        let f_flags = flags(u8::from_le_bytes(take(input, at)?));",
        "        let at = at + 1;",
        "        let f_seq = u8::from_le_bytes(take(input, at)?);",
        "        let at = at + 1;",
        "        let f_pan = u16::from_le_bytes(take(input, at)?);",
        "        let at = at + 2;",
        "        let f_stamp = u32::from_le_bytes(take(input, at)?);",
        "        let at = at + 4;",
        "        let f_serial = u64::from_le_bytes(take(input, at)?);",
        "        let at = at + 8;",
        "        let f_pad = take::<3>(input, at)?;",
        "        let at = at + 3;",
        "        let (f_addr, used) = address::decode(&input[at..], *selectors.get(next).ok_or(\"UnresolvedVariant\")?)?;",
        "        let at = at + used;",
        "        let next = next + 1;",
        "        Ok((Self {",
        "            flags: f_flags,",
        "            seq: f_seq,",
        "            pan: f_pan,",
        "            stamp: f_stamp,",
        "            serial: f_serial,",
        "            pad: f_pad,",
        "            addr: f_addr,",
        "        }, at))",
        "    }",
        "}",
        "",
    ];
    lines.iter().map(|line| format!("{}\n", line)).collect()
}

#[test]
fn the_text_compiled_here_is_the_text_emitted() {
    assert_eq!(container_text(), emitted_container());
    assert_eq!(structure_text(), emitted_structure());
}

#[test]
fn emitted_accessors_read_what_the_layout_encodes() {
    let layout = flags_schema().compile().unwrap();
    for addr in 0..2usize {
        for count in 0..8u64 {
            let raw = layout.encode(&vec![SlotValue::Symbol(addr), SlotValue::Number(count)]);
            let container = flags(raw as u8);
            let symbol = if addr == 0 { flags_addr::absent } else { flags_addr::present };
            assert_eq!(container.addr(), Ok(symbol));
            assert_eq!(container.count(), count);
            assert_eq!(flags(0).with_addr(symbol).with_count(count), container);
            assert_eq!(flags(0xff).with_addr(symbol).with_count(count).0 & 0x0f, raw as u8);
            assert_eq!(symbol.raw(), addr as u64);
        }
    }
}

#[test]
fn emitted_accessors_leave_the_other_bits_alone() {
    let container = flags(0b1010_0101);
    assert_eq!(container.with_count(7).0, 0b1010_1111);
    assert_eq!(container.with_count(0).0, 0b1010_0001);
    assert_eq!(container.with_count(0xff).0, 0b1010_1111);
    assert_eq!(container.with_addr(flags_addr::absent).0, 0b1010_0100);
}

#[test]
fn emitted_symbols_close_their_domain() {
    assert_eq!(flags_addr::from_raw(0), Ok(flags_addr::absent));
    assert_eq!(flags_addr::from_raw(1), Ok(flags_addr::present));
    assert_eq!(flags_addr::from_raw(2), Err("UndeclaredDiscriminant"));
    assert_eq!(flags_addr::from_raw(2), Err(CodecError::UndeclaredDiscriminant.name()));
    let layout = flags_schema().compile().unwrap();
    assert_eq!(flags(0xff).addr(), Ok(flags_addr::present));
    assert_eq!(layout.decode(0xff).map(|values| values[0]), Ok(SlotValue::Symbol(1)));
}

fn sample(addr: address) -> hdr {
    hdr {
        flags: flags(0x01),
        seq: 7,
        pan: 0x1234,
        stamp: 0x89ab_cdef,
        serial: 0x0102_0304_0506_0708,
        pad: [0xa, 0xb, 0xc],
        addr,
    }
}

fn sample_values(addr: FieldValue) -> Vec<FieldValue> {
    vec![
        FieldValue::Plain(PlainValue::Int(0x01)),
        FieldValue::Plain(PlainValue::Int(7)),
        FieldValue::Plain(PlainValue::Int(0x1234)),
        FieldValue::Plain(PlainValue::Int(0x89ab_cdef)),
        FieldValue::Plain(PlainValue::Int(0x0102_0304_0506_0708)),
        FieldValue::Plain(PlainValue::Bytes(vec![0xa, 0xb, 0xc])),
        addr,
    ]
}

#[test]
fn the_emitted_codec_writes_what_the_layout_writes() {
    let alternatives = Alternatives::new().insert(&address_group());
    let layout = hdr_schema().compile(&alternatives).unwrap();

    let mut out = Vec::new();
    sample(address::addr_none(addr_none {})).encode(&mut out);
    let values = sample_values(FieldValue::Variant { case: 0, fields: vec![] });
    assert_eq!(out, layout.encode(&values));
    assert_eq!(out.len(), 19);

    let mut out = Vec::new();
    sample(address::addr_short(addr_short { address: [0xaa, 0xbb] })).encode(&mut out);
    let values = sample_values(
        FieldValue::Variant { case: 1, fields: vec![PlainValue::Bytes(vec![0xaa, 0xbb])] },
    );
    assert_eq!(out, layout.encode(&values));
    assert_eq!(out.len(), 21);
    assert_eq!(&out[..4], &[0x01, 7, 0x34, 0x12]);
}

#[test]
fn the_emitted_codec_reads_what_the_layout_reads() {
    let alternatives = Alternatives::new().insert(&address_group());
    let layout = hdr_schema().compile(&alternatives).unwrap();
    let with_address = sample(address::addr_short(addr_short { address: [0xaa, 0xbb] }));
    let mut bytes = Vec::new();
    with_address.encode(&mut bytes);
    bytes.push(0xee);

    assert_eq!(hdr::decode(&bytes, &[1]), Ok((with_address.clone(), 21)));
    assert_eq!(layout.decode(&bytes, &[1]).map(|(_, used)| used), Ok(21));
    assert_eq!(
        hdr::decode(&bytes, &[0]),
        Ok((sample(address::addr_none(addr_none {})), 19))
    );
    assert_eq!(layout.decode(&bytes, &[0]).map(|(_, used)| used), Ok(19));

    for cut in 0..21 {
        assert_eq!(hdr::decode(&bytes[..cut], &[1]), Err("TruncatedInput"));
        assert_eq!(layout.decode(&bytes[..cut], &[1]), Err(CodecError::TruncatedInput));
    }
    for selectors in [vec![], vec![0], vec![1], vec![2]] {
        for cut in [0, 5, 19, 20, 21, 22] {
            let ours = layout.decode(&bytes[..cut], &selectors).map(|(_, used)| used);
            let theirs = hdr::decode(&bytes[..cut], &selectors).map(|(_, used)| used);
            assert_eq!(ours.map_err(|e| e.name()), theirs);
        }
    }
    assert_eq!(hdr::decode(&bytes, &[2]), Err("UnresolvedVariant"));
    assert_eq!(layout.decode(&bytes, &[2]), Err(CodecError::UnresolvedVariant));
    assert_eq!(hdr::decode(&bytes, &[]), Err("UnresolvedVariant"));
    assert_eq!(layout.decode(&bytes, &[]), Err(CodecError::UnresolvedVariant));
    assert_eq!(hdr::decode(&bytes[..5], &[]), Err("TruncatedInput"));
    assert_eq!(layout.decode(&bytes[..5], &[]), Err(CodecError::TruncatedInput));
}
