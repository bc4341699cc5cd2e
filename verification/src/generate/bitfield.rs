//! Bit containers: the schema of a fixed-width integer that packs several
//! sub-byte slots, and the checks a schema has to pass before a layout is made
//! of it.
//!
//! Slots are placed in declaration order, the first at bit 0 (the least
//! significant), each directly above the one before.
use vstd::prelude::*;
use crate::bits::low_mask;
use crate::bits::mask_of;
use crate::error::SchemaError;
use crate::error::SchemaErrorKind;
use crate::error::SchemaErrorView;
use crate::generate::bitlayout::BitLayout;
use crate::generate::bitlayout::BitLayoutView;
use crate::generate::bitlayout::SlotKind;
use crate::generate::bitlayout::SlotKindView;
use crate::generate::bitlayout::SlotLayout;
use crate::generate::bitlayout::SlotLayoutView;
use crate::generate::bitlayout::layouts_view;
use crate::laws::bitfield::lemma_defect_skip;
use crate::laws::bitfield::lemma_width_monotonic;

verus! {

/// One symbol of an enumerated domain and the integer that stands for it.
#[derive(Debug)]
pub struct EnumValue {
    pub name: String,
    pub description: Option<String>,
    pub value: u64,
}

/// The mathematical content of an [`EnumValue`].
pub struct EnumValueView {
    pub name: Seq<char>,
    pub description: Option<Seq<char>>,
    pub value: u64,
}

impl View for EnumValue {
    type V = EnumValueView;

    open spec fn view(&self) -> EnumValueView {
        EnumValueView {
            name: self.name@,
            description: match self.description {
                Some(d) => Some(d@),
                None => None,
            },
            value: self.value,
        }
    }
}

/// The views of a list of symbols, in order.
pub open spec fn symbols_view(symbols: Seq<EnumValue>) -> Seq<EnumValueView> {
    Seq::new(symbols.len(), |j: int| symbols[j]@)
}

impl Clone for EnumValue {
    fn clone(&self) -> (copy: EnumValue)
        ensures
            copy@ == self@,
    {
        EnumValue {
            name: self.name.clone(),
            description: match &self.description {
                Some(d) => Some(d.clone()),
                None => None,
            },
            value: self.value,
        }
    }
}

/// Copies a list of symbols.
pub fn copy_symbols(symbols: &Vec<EnumValue>) -> (copy: Vec<EnumValue>)
    ensures
        symbols_view(copy@) == symbols_view(symbols@),
{
    let mut copy: Vec<EnumValue> = Vec::new();
    let mut j: usize = 0;
    while j < symbols.len()
        invariant
            j <= symbols.len(),
            symbols_view(copy@) == symbols_view(symbols@).take(j as int),
        decreases symbols.len() - j,
    {
        let ghost before = symbols_view(copy@);
        let symbol = symbols[j].clone();
        copy.push(symbol);
        assert(symbols_view(copy@) =~= before.push(symbols_view(symbols@)[j as int]));
        j += 1;
    }
    copy
}

/// What a named slot may hold: any integer of its width, or one of a closed
/// list of symbols.
#[derive(Debug)]
pub enum Domain {
    Numeric,
    Enumerated(Vec<EnumValue>),
}

/// The mathematical content of a [`Domain`].
pub enum DomainView {
    Numeric,
    Enumerated(Seq<EnumValueView>),
}

impl View for Domain {
    type V = DomainView;

    open spec fn view(&self) -> DomainView {
        match self {
            Domain::Numeric => DomainView::Numeric,
            Domain::Enumerated(symbols) => DomainView::Enumerated(symbols_view(symbols@)),
        }
    }
}

impl Clone for Domain {
    fn clone(&self) -> (copy: Domain)
        ensures
            copy@ == self@,
    {
        match self {
            Domain::Numeric => Domain::Numeric,
            Domain::Enumerated(symbols) => Domain::Enumerated(copy_symbols(symbols)),
        }
    }
}

impl DomainView {
    /// The declared symbols, in declaration order; none for a numeric domain.
    pub open spec fn symbols(self) -> Seq<EnumValueView> {
        match self {
            DomainView::Numeric => Seq::empty(),
            DomainView::Enumerated(symbols) => symbols,
        }
    }

    /// The domain with one more symbol declared after those it has.
    pub open spec fn with_symbol(self, symbol: EnumValueView) -> DomainView {
        DomainView::Enumerated(self.symbols().push(symbol))
    }

    /// The domain with `name` declared as the symbol for `value`.
    pub open spec fn symbol(self, name: Seq<char>, value: u64) -> DomainView {
        self.with_symbol(EnumValueView { name, description: None, value })
    }

    /// The domain with `name` declared as the symbol for `value`, with a
    /// description of it.
    pub open spec fn described(
        self,
        name: Seq<char>,
        description: Seq<char>,
        value: u64,
    ) -> DomainView {
        self.with_symbol(EnumValueView { name, description: Some(description), value })
    }

    /// Every declared integer fits in a slot of `width` bits.
    pub open spec fn fits(self, width: u64) -> bool {
        forall|j: int|
            0 <= j < self.symbols().len() ==> (#[trigger] self.symbols()[j]).value <= low_mask(
                width,
            )
    }

    /// No symbol and no integer is declared twice.
    pub open spec fn distinct(self) -> bool {
        forall|j: int, k: int|
            0 <= j < k < self.symbols().len() ==> {
                &&& (#[trigger] self.symbols()[j]).name != (#[trigger] self.symbols()[k]).name
                &&& self.symbols()[j].value != self.symbols()[k].value
            }
    }

    /// The declared integers, in declaration order.
    pub open spec fn values(self) -> Seq<u64> {
        Seq::new(self.symbols().len(), |j: int| self.symbols()[j].value)
    }
}

impl Domain {
    /// A domain that admits every integer of the slot's width.
    pub fn new() -> (d: Domain)
        ensures
            d@ == DomainView::Numeric,
    {
        Domain::Numeric
    }

    /// Drops whatever symbols were declared: the slot holds a plain integer.
    pub fn numeric(self) -> (d: Domain)
        ensures
            d@ == DomainView::Numeric,
    {
        Domain::Numeric
    }

    /// Declares `name` as the symbol for `value`.
    pub fn add_enum_value(self, name: &str, value: u64) -> (d: Domain)
        ensures
            d@ == self@.symbol(name@, value),
    {
        self.push_symbol(EnumValue { name: name.to_owned(), description: None, value })
    }

    /// Declares `name` as the symbol for `value`, with a description of it.
    pub fn add_enum_value_desc(self, name: &str, description: &str, value: u64) -> (d: Domain)
        ensures
            d@ == self@.described(name@, description@, value),
    {
        self.push_symbol(
            EnumValue { name: name.to_owned(), description: Some(description.to_owned()), value },
        )
    }

    fn push_symbol(self, symbol: EnumValue) -> (d: Domain)
        ensures
            d@ == self@.with_symbol(symbol@),
    {
        let mut symbols = match self {
            Domain::Numeric => Vec::new(),
            Domain::Enumerated(symbols) => symbols,
        };
        let ghost before = symbols@;
        let ghost added = symbol@;
        symbols.push(symbol);
        assert(symbols_view(symbols@) =~= symbols_view(before).push(added));
        assert(symbols_view(before) =~= self@.symbols());
        Domain::Enumerated(symbols)
    }
}

/// One sub-field of a bit container.
#[derive(Debug)]
pub enum BitSlot {
    /// Padding. It is written as zero and never read.
    Reserved { width: u64 },
    /// A field that the codec surfaces under `name`.
    Named { name: String, description: String, width: u64, domain: Domain },
}

/// The mathematical content of a [`BitSlot`].
pub enum BitSlotView {
    Reserved { width: u64 },
    Named { name: Seq<char>, description: Seq<char>, width: u64, domain: DomainView },
}

impl View for BitSlot {
    type V = BitSlotView;

    open spec fn view(&self) -> BitSlotView {
        match self {
            BitSlot::Reserved { width } => BitSlotView::Reserved { width: *width },
            BitSlot::Named { name, description, width, domain } => BitSlotView::Named {
                name: name@,
                description: description@,
                width: *width,
                domain: domain@,
            },
        }
    }
}

impl Clone for BitSlot {
    fn clone(&self) -> (copy: BitSlot)
        ensures
            copy@ == self@,
    {
        match self {
            BitSlot::Reserved { width } => BitSlot::Reserved { width: *width },
            BitSlot::Named { name, description, width, domain } => BitSlot::Named {
                name: name.clone(),
                description: description.clone(),
                width: *width,
                domain: domain.clone(),
            },
        }
    }
}

impl BitSlotView {
    /// The slot's width in bits.
    pub open spec fn width(self) -> u64 {
        match self {
            BitSlotView::Reserved { width } => width,
            BitSlotView::Named { width, .. } => width,
        }
    }

    /// The domain of a named slot; a reserved slot has none to check.
    pub open spec fn domain(self) -> DomainView {
        match self {
            BitSlotView::Reserved { .. } => DomainView::Numeric,
            BitSlotView::Named { domain, .. } => domain,
        }
    }
}

/// The views of a list of slots, in order.
pub open spec fn slots_view(slots: Seq<BitSlot>) -> Seq<BitSlotView> {
    Seq::new(slots.len(), |i: int| slots[i]@)
}

/// The sum of the widths of the first `n` slots.
pub open spec fn width_before(slots: Seq<BitSlotView>, n: int) -> int
    decreases n,
{
    if n <= 0 {
        0
    } else {
        width_before(slots, n - 1) + slots[n - 1].width()
    }
}

/// Whether a container of `bits` bits exists.
pub open spec fn supported_width(bits: int) -> bool {
    bits == 8 || bits == 16 || bits == 32 || bits == 64
}

/// Whether slot `i` is named as an earlier slot is.
pub open spec fn name_repeats(slots: Seq<BitSlotView>, i: int) -> bool {
    slots[i] is Named && exists|j: int|
        0 <= j < i && (#[trigger] slots[j]) is Named && slots[j]->name == slots[i]->name
}

/// What is wrong with slot `i` taken with the slots before it, if anything. A
/// repeated name is reported before a defect of the slot's domain, and an
/// integer out of range before a repetition within the domain.
pub open spec fn slot_defect(slots: Seq<BitSlotView>, i: int) -> Option<SchemaErrorKind> {
    if name_repeats(slots, i) {
        Some(SchemaErrorKind::DuplicateFieldName)
    } else if !slots[i].domain().fits(slots[i].width()) {
        Some(SchemaErrorKind::EnumValueOutOfRange)
    } else if !slots[i].domain().distinct() {
        Some(SchemaErrorKind::DuplicateEnumValue)
    } else {
        None
    }
}

/// The defect of the first defective slot at or after `from`.
pub open spec fn first_slot_defect(slots: Seq<BitSlotView>, from: int) -> Option<SchemaErrorView>
    decreases slots.len() - from,
{
    if from < 0 || from >= slots.len() {
        None
    } else if let Some(kind) = slot_defect(slots, from) {
        Some(SchemaErrorView { kind, subject: slots[from]->name })
    } else {
        first_slot_defect(slots, from + 1)
    }
}

/// The schema of a bit container.
#[derive(Debug)]
pub struct BitField {
    pub name: String,
    pub description: String,
    pub slots: Vec<BitSlot>,
}

/// The mathematical content of a [`BitField`].
pub struct BitFieldView {
    pub name: Seq<char>,
    pub description: Seq<char>,
    pub slots: Seq<BitSlotView>,
}

impl View for BitField {
    type V = BitFieldView;

    open spec fn view(&self) -> BitFieldView {
        BitFieldView {
            name: self.name@,
            description: self.description@,
            slots: slots_view(self.slots@),
        }
    }
}

impl Clone for BitField {
    fn clone(&self) -> (copy: BitField)
        ensures
            copy@ == self@,
    {
        let mut slots: Vec<BitSlot> = Vec::new();
        let mut i: usize = 0;
        while i < self.slots.len()
            invariant
                i <= self.slots.len(),
                slots_view(slots@) == self@.slots.take(i as int),
            decreases self.slots.len() - i,
        {
            let ghost before = slots_view(slots@);
            slots.push(self.slots[i].clone());
            assert(slots_view(slots@) =~= before.push(self@.slots[i as int]));
            i += 1;
        }
        assert(slots_view(slots@) =~= self@.slots);
        BitField { name: self.name.clone(), description: self.description.clone(), slots }
    }
}

impl BitFieldView {
    /// The schema of a container with no slots.
    pub open spec fn empty(name: Seq<char>, description: Seq<char>) -> BitFieldView {
        BitFieldView { name, description, slots: Seq::empty() }
    }

    /// The schema with one more slot declared above those it has.
    pub open spec fn with_slot(self, slot: BitSlotView) -> BitFieldView {
        BitFieldView { slots: self.slots.push(slot), ..self }
    }

    /// The schema with a named slot declared above the slots it has.
    pub open spec fn named(
        self,
        name: Seq<char>,
        description: Seq<char>,
        width: u64,
        domain: DomainView,
    ) -> BitFieldView {
        self.with_slot(BitSlotView::Named { name, description, width, domain })
    }

    /// The schema with padding declared above the slots it has.
    pub open spec fn reserved(self, width: u64) -> BitFieldView {
        self.with_slot(BitSlotView::Reserved { width })
    }

    /// The sum of all slot widths.
    pub open spec fn total_width(self) -> int {
        width_before(self.slots, self.slots.len() as int)
    }

    /// No two named slots share a name.
    pub open spec fn names_distinct(self) -> bool {
        forall|i: int, j: int|
            0 <= i < j < self.slots.len() && (#[trigger] self.slots[i]) is Named
                && (#[trigger] self.slots[j]) is Named
                ==> self.slots[i]->name != self.slots[j]->name
    }

    /// Every enumerated domain is closed: its symbols and integers are pairwise
    /// different and each integer fits in the slot.
    pub open spec fn domains_closed(self) -> bool {
        forall|i: int|
            0 <= i < self.slots.len() ==> {
                &&& (#[trigger] self.slots[i]).domain().fits(self.slots[i].width())
                &&& self.slots[i].domain().distinct()
            }
    }

    /// The schema describes a container: its names are distinct, its domains
    /// closed, and its slots fill a supported width exactly.
    pub open spec fn valid(self) -> bool {
        &&& self.names_distinct()
        &&& self.domains_closed()
        &&& supported_width(self.total_width())
    }

    /// The defect that compilation reports, if the schema has one. Slots are
    /// examined in declaration order and the first defective one is reported;
    /// only a schema whose slots are all sound is measured.
    pub open spec fn defect(self) -> Option<SchemaErrorView> {
        if first_slot_defect(self.slots, 0) is Some {
            first_slot_defect(self.slots, 0)
        } else if self.total_width() > 64 {
            Some(SchemaErrorView { kind: SchemaErrorKind::WidthOverflow, subject: self.name })
        } else if !supported_width(self.total_width()) {
            Some(SchemaErrorView { kind: SchemaErrorKind::WidthMismatch, subject: self.name })
        } else {
            None
        }
    }
}

impl BitField {
    /// A container with no slots yet.
    pub fn new(name: &str, description: &str) -> (b: BitField)
        ensures
            b@ == BitFieldView::empty(name@, description@),
    {
        let b = BitField {
            name: name.to_owned(),
            description: description.to_owned(),
            slots: Vec::new(),
        };
        assert(b@.slots =~= Seq::empty());
        b
    }

    /// Declares a named slot of `width` bits above the slots declared so far.
    pub fn add_bit_field(self, name: &str, description: &str, width: u64, domain: Domain) -> (b:
        BitField)
        ensures
            b@ == self@.named(name@, description@, width, domain@),
    {
        self.push_slot(
            BitSlot::Named {
                name: name.to_owned(),
                description: description.to_owned(),
                width,
                domain,
            },
        )
    }

    /// Declares `width` bits of padding above the slots declared so far.
    pub fn add_reserved(self, width: u64) -> (b: BitField)
        ensures
            b@ == self@.reserved(width),
    {
        self.push_slot(BitSlot::Reserved { width })
    }

    fn push_slot(self, slot: BitSlot) -> (b: BitField)
        ensures
            b@ == self@.with_slot(slot@),
    {
        let ghost before = self@;
        let ghost added = slot@;
        let mut b = self;
        b.slots.push(slot);
        assert(b@.slots =~= before.slots.push(added));
        b
    }
}

impl BitSlotView {
    /// What the slot holds, as its layout records it.
    pub open spec fn kind(self) -> SlotKindView {
        match self {
            BitSlotView::Reserved { .. } => SlotKindView::Reserved,
            BitSlotView::Named { domain, .. } => match domain {
                DomainView::Numeric => SlotKindView::Numeric,
                DomainView::Enumerated(_) => SlotKindView::Enumerated(domain.values()),
            },
        }
    }
}

impl BitFieldView {
    /// The place of slot `i`: directly above the slots declared before it.
    pub open spec fn slot_layout(self, i: int) -> SlotLayoutView {
        SlotLayoutView {
            offset: width_before(self.slots, i) as u64,
            width: self.slots[i].width(),
            kind: self.slots[i].kind(),
        }
    }

    /// The layout that a valid schema compiles to.
    pub open spec fn layout(self) -> BitLayoutView {
        BitLayoutView {
            bits: self.total_width() as u64,
            slots: Seq::new(self.slots.len(), |i: int| self.slot_layout(i)),
        }
    }
}

/// Whether two strings hold the same text.
pub fn same_text(a: &String, b: &String) -> (same: bool)
    ensures
        same == (a@ == b@),
{
    *a == *b
}

impl Domain {
    /// Whether every declared integer fits in a slot of `width` bits.
    pub fn fits(&self, width: u64) -> (b: bool)
        ensures
            b == self@.fits(width),
    {
        match self {
            Domain::Numeric => true,
            Domain::Enumerated(symbols) => {
                let limit = mask_of(width);
                let mut j: usize = 0;
                while j < symbols.len()
                    invariant
                        j <= symbols.len(),
                        limit == low_mask(width),
                        self@.symbols() == symbols_view(symbols@),
                        forall|k: int| 0 <= k < j ==> (#[trigger] self@.symbols()[k]).value <= limit,
                    decreases symbols.len() - j,
                {
                    if symbols[j].value > limit {
                        assert(self@.symbols()[j as int].value > limit);
                        return false;
                    }
                    j += 1;
                }
                true
            },
        }
    }

    /// Whether no symbol and no integer is declared twice.
    pub fn distinct(&self) -> (b: bool)
        ensures
            b == self@.distinct(),
    {
        match self {
            Domain::Numeric => true,
            Domain::Enumerated(symbols) => {
                let mut k: usize = 0;
                while k < symbols.len()
                    invariant
                        k <= symbols.len(),
                        self@.symbols() == symbols_view(symbols@),
                        forall|a: int, b: int|
                            0 <= a < b < k ==> {
                                &&& (#[trigger] self@.symbols()[a]).name != (
                                #[trigger] self@.symbols()[b]).name
                                &&& self@.symbols()[a].value != self@.symbols()[b].value
                            },
                    decreases symbols.len() - k,
                {
                    let mut j: usize = 0;
                    while j < k
                        invariant
                            j <= k < symbols.len(),
                            self@.symbols() == symbols_view(symbols@),
                            forall|a: int|
                                0 <= a < j ==> {
                                    &&& (#[trigger] self@.symbols()[a]).name
                                        != self@.symbols()[k as int].name
                                    &&& self@.symbols()[a].value != self@.symbols()[k as int].value
                                },
                        decreases k - j,
                    {
                        if same_text(&symbols[j].name, &symbols[k].name) || symbols[j].value
                            == symbols[k].value {
                            assert(self@.symbols()[j as int].name == self@.symbols()[k as int].name
                                || self@.symbols()[j as int].value
                                == self@.symbols()[k as int].value);
                            return false;
                        }
                        j += 1;
                    }
                    k += 1;
                }
                true
            },
        }
    }

    /// The declared integers, in declaration order.
    pub fn values(&self) -> (values: Vec<u64>)
        ensures
            values@ == self@.values(),
    {
        let mut values: Vec<u64> = Vec::new();
        match self {
            Domain::Numeric => {},
            Domain::Enumerated(symbols) => {
                let mut j: usize = 0;
                while j < symbols.len()
                    invariant
                        j <= symbols.len(),
                        self@.symbols() == symbols_view(symbols@),
                        values@ == self@.values().take(j as int),
                    decreases symbols.len() - j,
                {
                    values.push(symbols[j].value);
                    j += 1;
                }
            },
        }
        values
    }
}

impl BitSlot {
    /// The slot's width in bits.
    pub fn width(&self) -> (w: u64)
        ensures
            w == self@.width(),
    {
        match self {
            BitSlot::Reserved { width } => *width,
            BitSlot::Named { width, .. } => *width,
        }
    }

    /// What the slot holds, as its layout records it.
    pub fn kind(&self) -> (kind: SlotKind)
        ensures
            kind@ == self@.kind(),
    {
        match self {
            BitSlot::Reserved { .. } => SlotKind::Reserved,
            BitSlot::Named { domain, .. } => match domain {
                Domain::Numeric => SlotKind::Numeric,
                Domain::Enumerated(_) => SlotKind::Enumerated(domain.values()),
            },
        }
    }
}

impl BitField {
    /// Whether slot `i` is named as an earlier slot is.
    fn name_repeats(&self, i: usize) -> (b: bool)
        requires
            i < self.slots.len(),
        ensures
            b == name_repeats(self@.slots, i as int),
    {
        match &self.slots[i] {
            BitSlot::Reserved { .. } => false,
            BitSlot::Named { name, .. } => {
                let mut j: usize = 0;
                while j < i
                    invariant
                        j <= i < self.slots.len(),
                        self@.slots[i as int] is Named,
                        self@.slots[i as int]->name == name@,
                        forall|k: int|
                            0 <= k < j ==> !((#[trigger] self@.slots[k]) is Named
                                && self@.slots[k]->name == name@),
                    decreases i - j,
                {
                    match &self.slots[j] {
                        BitSlot::Reserved { .. } => {},
                        BitSlot::Named { name: earlier, .. } => {
                            if same_text(earlier, name) {
                                assert(self@.slots[j as int] is Named && self@.slots[j as int]->name
                                    == name@);
                                return true;
                            }
                        },
                    }
                    j += 1;
                }
                false
            },
        }
    }

    /// What is wrong with slot `i` taken with the slots before it, if anything,
    /// reported by the slot's name.
    fn slot_defect(&self, i: usize) -> (defect: Option<SchemaError>)
        requires
            i < self.slots.len(),
        ensures
            match defect {
                Some(e) => slot_defect(self@.slots, i as int) == Some(e@.kind) && e@.subject
                    == self@.slots[i as int]->name,
                None => slot_defect(self@.slots, i as int) is None,
            },
    {
        match &self.slots[i] {
            BitSlot::Reserved { .. } => None,
            BitSlot::Named { name, width, domain, .. } => {
                if self.name_repeats(i) {
                    Some(SchemaError::new(SchemaErrorKind::DuplicateFieldName, name))
                } else if !domain.fits(*width) {
                    Some(SchemaError::new(SchemaErrorKind::EnumValueOutOfRange, name))
                } else if !domain.distinct() {
                    Some(SchemaError::new(SchemaErrorKind::DuplicateEnumValue, name))
                } else {
                    None
                }
            },
        }
    }

    /// The sum of all slot widths, if it is at most 64.
    fn total_width(&self) -> (total: Option<u64>)
        ensures
            match total {
                Some(bits) => bits == self@.total_width() && bits <= 64,
                None => self@.total_width() > 64,
            },
    {
        let mut total: u64 = 0;
        let mut i: usize = 0;
        while i < self.slots.len()
            invariant
                i <= self.slots.len(),
                total == width_before(self@.slots, i as int),
                total <= 64,
            decreases self.slots.len() - i,
        {
            let width = self.slots[i].width();
            if width > 64 - total {
                proof {
                    lemma_width_monotonic(self@.slots, i + 1, self@.slots.len() as int);
                }
                return None;
            }
            total += width;
            i += 1;
        }
        Some(total)
    }

    /// Checks the schema and lays its slots out.
    ///
    /// The slots are examined in declaration order; the first one that repeats
    /// an earlier name or has a malformed domain is reported by its name. A
    /// schema whose slots are all sound is then measured, and reported by its
    /// own name if its total width is not 8, 16, 32 or 64.
    pub fn compile(&self) -> (r: Result<BitLayout, SchemaError>)
        ensures
            match r {
                Ok(layout) => self@.valid() && layout@ == self@.layout() && layout@.wf(),
                Err(e) => !self@.valid() && self@.defect() == Some(e@),
            },
    {
        proof {
            self@.lemma_defect_iff_invalid();
        }
        let mut i: usize = 0;
        while i < self.slots.len()
            invariant
                i <= self.slots.len(),
                forall|k: int| 0 <= k < i ==> slot_defect(self@.slots, k) is None,
            decreases self.slots.len() - i,
        {
            if let Some(e) = self.slot_defect(i) {
                proof {
                    lemma_defect_skip(self@.slots, 0, i as int);
                }
                return Err(e);
            }
            i += 1;
        }
        proof {
            lemma_defect_skip(self@.slots, 0, self@.slots.len() as int);
        }
        let bits = match self.total_width() {
            Some(bits) => bits,
            None => {
                return Err(SchemaError::new(SchemaErrorKind::WidthOverflow, &self.name));
            },
        };
        if !(bits == 8 || bits == 16 || bits == 32 || bits == 64) {
            return Err(SchemaError::new(SchemaErrorKind::WidthMismatch, &self.name));
        }
        proof {
            self@.lemma_valid_layout();
        }
        let mut slots: Vec<SlotLayout> = Vec::new();
        let mut offset: u64 = 0;
        let mut i: usize = 0;
        while i < self.slots.len()
            invariant
                i <= self.slots.len(),
                self@.total_width() == bits,
                bits <= 64,
                offset == width_before(self@.slots, i as int),
                layouts_view(slots@) == self@.layout().slots.take(i as int),
            decreases self.slots.len() - i,
        {
            proof {
                lemma_width_monotonic(self@.slots, i + 1, self@.slots.len() as int);
            }
            let width = self.slots[i].width();
            let kind = self.slots[i].kind();
            let ghost before = layouts_view(slots@);
            slots.push(SlotLayout { offset, width, kind });
            assert(layouts_view(slots@) =~= before.push(self@.slot_layout(i as int)));
            offset += width;
            i += 1;
        }
        assert(layouts_view(slots@) =~= self@.layout().slots);
        Ok(BitLayout::from_parts(bits, slots))
    }
}

} // verus!
