//! Compiled bit containers: where each slot lies, and the codec that packs slot
//! values into the container and reads them back.
use vstd::prelude::*;
use crate::bits::below;
use crate::bits::extract;
use crate::bits::extract_bits;
use crate::bits::low_mask;
use crate::bits::place;
use crate::bits::place_bits;
use crate::error::CodecError;
use crate::laws::bitlayout::lemma_named_monotonic;
use crate::laws::bitlayout::lemma_packed_below;
use crate::laws::bitlayout::lemma_position_skip;
use crate::laws::bitlayout::lemma_unpacked_fails_on;

verus! {

/// The value of one named slot, as the codec takes and gives it.
#[derive(Clone, Copy, Debug, PartialEq, Eq, Structural)]
pub enum SlotValue {
    /// The integer held by a numeric slot.
    Number(u64),
    /// A symbol of an enumerated slot, by its position in the declaration order
    /// of the slot's domain.
    Symbol(usize),
}

/// What a slot holds.
#[derive(Debug)]
pub enum SlotKind {
    /// Padding.
    Reserved,
    /// Any integer of the slot's width.
    Numeric,
    /// One of the listed integers, each standing for the symbol declared at the
    /// same position.
    Enumerated(Vec<u64>),
}

/// The mathematical content of a [`SlotKind`].
pub enum SlotKindView {
    Reserved,
    Numeric,
    Enumerated(Seq<u64>),
}

impl View for SlotKind {
    type V = SlotKindView;

    open spec fn view(&self) -> SlotKindView {
        match self {
            SlotKind::Reserved => SlotKindView::Reserved,
            SlotKind::Numeric => SlotKindView::Numeric,
            SlotKind::Enumerated(values) => SlotKindView::Enumerated(values@),
        }
    }
}

/// The place of one slot in its container.
#[derive(Debug)]
pub struct SlotLayout {
    pub offset: u64,
    pub width: u64,
    pub kind: SlotKind,
}

/// The mathematical content of a [`SlotLayout`].
pub struct SlotLayoutView {
    pub offset: u64,
    pub width: u64,
    pub kind: SlotKindView,
}

impl View for SlotLayout {
    type V = SlotLayoutView;

    open spec fn view(&self) -> SlotLayoutView {
        SlotLayoutView { offset: self.offset, width: self.width, kind: self.kind@ }
    }
}

/// The position of the first occurrence of `x` in `values` at or after `from`,
/// if there is one.
pub open spec fn position_from(values: Seq<u64>, x: u64, from: int) -> Option<int>
    decreases values.len() - from,
{
    if from < 0 || from >= values.len() {
        None
    } else if values[from] == x {
        Some(from)
    } else {
        position_from(values, x, from + 1)
    }
}

/// No integer occurs twice in `values`.
pub open spec fn all_different(values: Seq<u64>) -> bool {
    forall|j: int, k: int| 0 <= j < k < values.len() ==> values[j] != values[k]
}

impl SlotLayoutView {
    /// Whether `value` is of the sort this slot takes.
    pub open spec fn admits(self, value: SlotValue) -> bool {
        match self.kind {
            SlotKindView::Reserved => false,
            SlotKindView::Numeric => value is Number,
            SlotKindView::Enumerated(values) => value is Symbol && value->Symbol_0 < values.len(),
        }
    }

    /// Whether `value` is of the sort this slot takes and fits in it.
    pub open spec fn holds(self, value: SlotValue) -> bool {
        &&& self.admits(value)
        &&& value is Number ==> value->Number_0 <= low_mask(self.width)
    }

    /// The integer that stands for `value` in the container.
    pub open spec fn integer_of(self, value: SlotValue) -> u64 {
        match value {
            SlotValue::Number(x) => x,
            SlotValue::Symbol(j) => match self.kind {
                SlotKindView::Enumerated(values) if j < values.len() => values[j as int],
                _ => 0,
            },
        }
    }

    /// The value that the integer `x` stands for, if the slot's domain declares
    /// it.
    pub open spec fn value_of(self, x: u64) -> Option<SlotValue> {
        match self.kind {
            SlotKindView::Reserved => None,
            SlotKindView::Numeric => Some(SlotValue::Number(x)),
            SlotKindView::Enumerated(values) => match position_from(values, x, 0) {
                Some(j) => Some(SlotValue::Symbol(j as usize)),
                None => None,
            },
        }
    }

    /// The slot's enumerated integers are pairwise different and fit in it.
    pub open spec fn closed(self) -> bool {
        match self.kind {
            SlotKindView::Enumerated(values) => {
                &&& all_different(values)
                &&& forall|j: int| 0 <= j < values.len() ==> #[trigger] values[j] <= low_mask(self.width)
            },
            _ => true,
        }
    }
}

/// The views of a list of slot layouts, in order.
pub open spec fn layouts_view(slots: Seq<SlotLayout>) -> Seq<SlotLayoutView> {
    Seq::new(slots.len(), |i: int| slots[i]@)
}

/// The sum of the widths of the first `n` slots.
pub open spec fn span_before(slots: Seq<SlotLayoutView>, n: int) -> int
    decreases n,
{
    if n <= 0 {
        0
    } else {
        span_before(slots, n - 1) + slots[n - 1].width
    }
}

/// The number of named slots among the first `n`.
pub open spec fn named_before(slots: Seq<SlotLayoutView>, n: int) -> int
    decreases n,
{
    if n <= 0 {
        0
    } else if slots[n - 1].kind is Reserved {
        named_before(slots, n - 1)
    } else {
        named_before(slots, n - 1) + 1
    }
}

/// The container after the first `n` slots have been written into an all-zero
/// container: the values of the named ones shifted into place and joined, the
/// reserved ones left at zero.
pub open spec fn packed(slots: Seq<SlotLayoutView>, values: Seq<SlotValue>, n: int) -> u64
    decreases n,
{
    if n <= 0 {
        0
    } else {
        let slot = slots[n - 1];
        let lower = packed(slots, values, n - 1);
        if slot.kind is Reserved {
            lower
        } else {
            lower | place(
                slot.integer_of(values[named_before(slots, n - 1)]),
                slot.offset,
                slot.width,
            )
        }
    }
}

/// The values of the named slots among the first `n`, read from `raw`; nothing
/// if one of them holds an integer that its domain does not declare.
pub open spec fn unpacked(slots: Seq<SlotLayoutView>, raw: u64, n: int) -> Option<Seq<SlotValue>>
    decreases n,
{
    if n <= 0 {
        Some(Seq::empty())
    } else {
        let slot = slots[n - 1];
        match unpacked(slots, raw, n - 1) {
            None => None,
            Some(lower) => if slot.kind is Reserved {
                Some(lower)
            } else {
                match slot.value_of(extract(raw, slot.offset, slot.width)) {
                    None => None,
                    Some(value) => Some(lower.push(value)),
                }
            },
        }
    }
}

/// The mathematical content of a [`BitLayout`].
pub struct BitLayoutView {
    pub bits: u64,
    pub slots: Seq<SlotLayoutView>,
}

impl BitLayoutView {
    /// The layout is that of a container: a supported width, filled exactly by
    /// slots that follow one another from bit 0 upwards, with closed enumerated
    /// domains.
    pub open spec fn wf(self) -> bool {
        &&& self.bits == 8 || self.bits == 16 || self.bits == 32 || self.bits == 64
        &&& span_before(self.slots, self.slots.len() as int) == self.bits
        &&& forall|i: int|
            0 <= i < self.slots.len() ==> {
                &&& (#[trigger] self.slots[i]).offset == span_before(self.slots, i)
                &&& self.slots[i].closed()
            }
    }

    /// The number of values that the codec takes and gives.
    pub open spec fn named_count(self) -> int {
        named_before(self.slots, self.slots.len() as int)
    }

    /// Whether `values` holds one value for each named slot, in declaration
    /// order, each of the sort its slot takes.
    pub open spec fn admits(self, values: Seq<SlotValue>) -> bool {
        &&& values.len() == self.named_count()
        &&& forall|i: int|
            0 <= i < self.slots.len() && !((#[trigger] self.slots[i]).kind is Reserved)
                ==> self.slots[i].admits(values[named_before(self.slots, i)])
    }

    /// Whether `values` is admitted and every number in it fits in its slot.
    pub open spec fn holds(self, values: Seq<SlotValue>) -> bool {
        &&& values.len() == self.named_count()
        &&& forall|i: int|
            0 <= i < self.slots.len() && !((#[trigger] self.slots[i]).kind is Reserved)
                ==> self.slots[i].holds(values[named_before(self.slots, i)])
    }

    /// Whether every reserved bit of `raw` is zero.
    pub open spec fn reserved_clear(self, raw: u64) -> bool {
        forall|i: int|
            0 <= i < self.slots.len() && (#[trigger] self.slots[i]).kind is Reserved ==> extract(
                raw,
                self.slots[i].offset,
                self.slots[i].width,
            ) == 0
    }

    /// Whether every enumerated slot of `raw` holds an integer that its domain
    /// declares.
    pub open spec fn declared(self, raw: u64) -> bool {
        forall|i: int|
            0 <= i < self.slots.len() && (#[trigger] self.slots[i]).kind is Enumerated
                ==> self.slots[i].kind->Enumerated_0.contains(
                extract(raw, self.slots[i].offset, self.slots[i].width),
            )
    }

    /// The container that holds `values`. A number wider than its slot is cut
    /// to the slot's width.
    pub open spec fn encode(self, values: Seq<SlotValue>) -> u64 {
        packed(self.slots, values, self.slots.len() as int)
    }

    /// The values held by the container `raw`.
    pub open spec fn decode(self, raw: u64) -> Result<Seq<SlotValue>, CodecError> {
        match unpacked(self.slots, raw, self.slots.len() as int) {
            Some(values) => Ok(values),
            None => Err(CodecError::UndeclaredDiscriminant),
        }
    }
}

/// A compiled bit container: its width and the place of each of its slots.
///
/// A value of this type always describes a container whose slots fill it
/// exactly, so the codec needs no further checks of the layout.
#[derive(Debug)]
pub struct BitLayout {
    bits: u64,
    slots: Vec<SlotLayout>,
}

impl View for BitLayout {
    type V = BitLayoutView;

    closed spec fn view(&self) -> BitLayoutView {
        BitLayoutView { bits: self.bits, slots: layouts_view(self.slots@) }
    }
}

impl SlotLayout {
    /// The integer that stands for `value` in this slot.
    pub fn integer_of(&self, value: SlotValue) -> (x: u64)
        ensures
            x == self@.integer_of(value),
    {
        match value {
            SlotValue::Number(x) => x,
            SlotValue::Symbol(j) => match &self.kind {
                SlotKind::Enumerated(values) => if j < values.len() {
                    values[j]
                } else {
                    0
                },
                _ => 0,
            },
        }
    }

    /// The value that the integer `x` stands for in this slot, if any.
    pub fn value_of(&self, x: u64) -> (value: Option<SlotValue>)
        ensures
            value == self@.value_of(x),
    {
        match &self.kind {
            SlotKind::Reserved => None,
            SlotKind::Numeric => Some(SlotValue::Number(x)),
            SlotKind::Enumerated(values) => {
                let mut j: usize = 0;
                while j < values.len()
                    invariant
                        j <= values.len(),
                        self@.kind == SlotKindView::Enumerated(values@),
                        forall|k: int| 0 <= k < j ==> values@[k] != x,
                    decreases values.len() - j,
                {
                    if values[j] == x {
                        proof {
                            lemma_position_skip(values@, x, 0, j as int);
                        }
                        return Some(SlotValue::Symbol(j));
                    }
                    j += 1;
                }
                proof {
                    lemma_position_skip(values@, x, 0, values@.len() as int);
                }
                None
            },
        }
    }
}

impl BitLayout {
    #[verifier::type_invariant]
    spec fn inv(self) -> bool {
        self@.wf()
    }

    /// Makes a layout of parts that are known to fit together.
    pub(crate) fn from_parts(bits: u64, slots: Vec<SlotLayout>) -> (layout: BitLayout)
        requires
            (BitLayoutView { bits, slots: layouts_view(slots@) }).wf(),
        ensures
            layout@ == (BitLayoutView { bits, slots: layouts_view(slots@) }),
    {
        BitLayout { bits, slots }
    }

    /// The container's width in bits: 8, 16, 32 or 64.
    pub fn bits(&self) -> (bits: u64)
        ensures
            bits == self@.bits,
            self@.wf(),
    {
        proof {
            use_type_invariant(self);
        }
        self.bits
    }

    /// The number of slots, reserved ones included.
    pub fn slot_count(&self) -> (n: usize)
        ensures
            n == self@.slots.len(),
    {
        self.slots.len()
    }

    /// The place of slot `i`.
    pub fn slot(&self, i: usize) -> (slot: &SlotLayout)
        requires
            i < self@.slots.len(),
        ensures
            slot@ == self@.slots[i as int],
            slot@.closed(),
    {
        proof {
            use_type_invariant(self);
            assert(self@.slots[i as int].closed());
        }
        &self.slots[i]
    }

    /// The number of values that `encode` takes and `decode` gives.
    pub fn named_count(&self) -> (n: usize)
        ensures
            n == self@.named_count(),
    {
        let mut n: usize = 0;
        let mut i: usize = 0;
        while i < self.slots.len()
            invariant
                i <= self.slots.len(),
                n == named_before(self@.slots, i as int),
                n <= i,
            decreases self.slots.len() - i,
        {
            match self.slots[i].kind {
                SlotKind::Reserved => {},
                _ => {
                    n += 1;
                },
            }
            i += 1;
        }
        n
    }

    /// Packs `values`, one for each named slot in declaration order, into a
    /// container. Reserved bits are zero in the result, and a number wider than
    /// its slot is cut to the slot's width.
    pub fn encode(&self, values: &Vec<SlotValue>) -> (raw: u64)
        requires
            self@.admits(values@),
        ensures
            raw == self@.encode(values@),
            below(raw, self@.bits),
            self@.reserved_clear(raw),
    {
        proof {
            use_type_invariant(self);
            self@.lemma_encode_clears_reserved(values@);
        }
        let mut raw: u64 = 0;
        let mut k: usize = 0;
        let mut i: usize = 0;
        while i < self.slots.len()
            invariant
                i <= self.slots.len(),
                self@.wf(),
                self@.admits(values@),
                k == named_before(self@.slots, i as int),
                raw == packed(self@.slots, values@, i as int),
            decreases self.slots.len() - i,
        {
            proof {
                lemma_named_monotonic(self@.slots, i as int, self@.slots.len() as int);
            }
            let slot = &self.slots[i];
            match slot.kind {
                SlotKind::Reserved => {},
                _ => {
                    let x = slot.integer_of(values[k]);
                    raw = raw | place_bits(x, slot.offset, slot.width);
                    k += 1;
                },
            }
            i += 1;
        }
        proof {
            lemma_packed_below(self@, values@, self@.slots.len() as int);
        }
        raw
    }

    /// Overwrites `container` with the encoding of `values`. Nothing of what
    /// the container held before is left in it.
    pub fn write(&self, container: &mut u64, values: &Vec<SlotValue>)
        requires
            self@.admits(values@),
        ensures
            *final(container) == self@.encode(values@),
            below(*final(container), self@.bits),
            self@.reserved_clear(*final(container)),
    {
        *container = self.encode(values);
    }

    /// Reads the value of each named slot from `raw`, in declaration order.
    /// Bits outside the named slots are ignored. Fails, with
    /// `UndeclaredDiscriminant`, exactly if an enumerated slot holds an integer
    /// that its domain does not declare.
    pub fn decode(&self, raw: u64) -> (r: Result<Vec<SlotValue>, CodecError>)
        ensures
            match r {
                Ok(values) => self@.decode(raw) == Ok::<Seq<SlotValue>, CodecError>(values@),
                Err(e) => self@.decode(raw) == Err::<Seq<SlotValue>, CodecError>(e),
            },
            r is Ok <==> self@.declared(raw),
            r is Err ==> r == Err::<Vec<SlotValue>, CodecError>(CodecError::UndeclaredDiscriminant),
    {
        let mut values: Vec<SlotValue> = Vec::new();
        let mut i: usize = 0;
        while i < self.slots.len()
            invariant
                i <= self.slots.len(),
                unpacked(self@.slots, raw, i as int) == Some(values@),
            decreases self.slots.len() - i,
        {
            let slot = &self.slots[i];
            match slot.kind {
                SlotKind::Reserved => {},
                _ => {
                    match slot.value_of(extract_bits(raw, slot.offset, slot.width)) {
                        Some(value) => {
                            values.push(value);
                        },
                        None => {
                            proof {
                                lemma_unpacked_fails_on(
                                    self@.slots,
                                    raw,
                                    i as int,
                                    self@.slots.len() as int,
                                );
                                self@.lemma_decode_total(raw);
                            }
                            return Err(CodecError::UndeclaredDiscriminant);
                        },
                    }
                },
            }
            i += 1;
        }
        proof {
            self@.lemma_decode_total(raw);
        }
        Ok(values)
    }
}

} // verus!
