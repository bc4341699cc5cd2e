//! What holds of the container codec: decoding gives back what was encoded,
//! reserved bits stay clear, and only declared symbols decode.
use vstd::prelude::*;
use crate::bits::below;
use crate::bits::extract;
use crate::bits::lemma_below_widens;
use crate::bits::lemma_extract_above;
use crate::bits::lemma_mask_keeps_small;
use crate::bits::lemma_place_above;
use crate::bits::lemma_place_on_top;
use crate::bits::low_mask;
use crate::error::CodecError;
use crate::generate::bitlayout::BitLayoutView;
use crate::generate::bitlayout::SlotLayoutView;
use crate::generate::bitlayout::SlotValue;
use crate::generate::bitlayout::named_before;
use crate::generate::bitlayout::packed;
use crate::generate::bitlayout::position_from;
use crate::generate::bitlayout::span_before;
use crate::generate::bitlayout::unpacked;

verus! {

/// Slots follow one another: the widths before a slot never add up to more than
/// the widths before a later one.
pub proof fn lemma_span_monotonic(slots: Seq<SlotLayoutView>, i: int, n: int)
    requires
        0 <= i <= n,
    ensures
        0 <= span_before(slots, i) <= span_before(slots, n),
        i < n ==> span_before(slots, i) + slots[i].width <= span_before(slots, n),
    decreases n,
{
    if n > 0 {
        if i < n {
            lemma_span_monotonic(slots, i, n - 1);
        }
        lemma_span_monotonic(slots, 0, n - 1);
    }
}

/// The count of named slots grows with the prefix and never exceeds it.
pub proof fn lemma_named_monotonic(slots: Seq<SlotLayoutView>, i: int, n: int)
    requires
        0 <= i <= n,
    ensures
        0 <= named_before(slots, i) <= named_before(slots, n) <= n,
        i < n && !(slots[i].kind is Reserved) ==> named_before(slots, i) < named_before(slots, n),
    decreases n,
{
    if n > 0 {
        if i < n {
            lemma_named_monotonic(slots, i, n - 1);
        }
        lemma_named_monotonic(slots, 0, n - 1);
    }
}

/// If `x` does not occur between `from` and `to`, a search from `from` finds
/// what a search from `to` finds.
pub proof fn lemma_position_skip(values: Seq<u64>, x: u64, from: int, to: int)
    requires
        0 <= from <= to <= values.len(),
        forall|k: int| from <= k < to ==> values[k] != x,
    ensures
        position_from(values, x, from) == position_from(values, x, to),
    decreases to - from,
{
    if from < to {
        lemma_position_skip(values, x, from + 1, to);
    }
}

/// A search finds an integer exactly if it occurs, and then at a position that
/// holds it.
pub proof fn lemma_position_found(values: Seq<u64>, x: u64, from: int)
    requires
        0 <= from,
    ensures
        match position_from(values, x, from) {
            Some(j) => from <= j < values.len() && values[j] == x,
            None => forall|k: int| from <= k < values.len() ==> values[k] != x,
        },
    decreases values.len() - from,
{
    if from < values.len() && values[from] != x {
        lemma_position_found(values, x, from + 1);
    }
}

/// Every declared symbol stands for exactly its declared integer, and that
/// integer is read back as the symbol.
pub proof fn lemma_symbol_round_trip(slot: SlotLayoutView, j: usize)
    requires
        slot.closed(),
        slot.kind is Enumerated,
        j < slot.kind->Enumerated_0.len(),
    ensures
        slot.integer_of(SlotValue::Symbol(j)) == slot.kind->Enumerated_0[j as int],
        slot.value_of(slot.integer_of(SlotValue::Symbol(j))) == Some(SlotValue::Symbol(j)),
{
    let values = slot.kind->Enumerated_0;
    lemma_position_found(values, values[j as int], 0);
}

/// An integer that the domain of an enumerated slot does not declare stands for
/// no value.
pub proof fn lemma_undeclared_has_no_value(slot: SlotLayoutView, x: u64)
    requires
        slot.kind is Enumerated,
        !slot.kind->Enumerated_0.contains(x),
    ensures
        slot.value_of(x) is None,
{
    lemma_position_found(slot.kind->Enumerated_0, x, 0);
}

/// After the first `n` slots are written, no bit is set at or above the place
/// where slot `n` begins.
pub proof fn lemma_packed_below(layout: BitLayoutView, values: Seq<SlotValue>, n: int)
    requires
        layout.wf(),
        0 <= n <= layout.slots.len(),
    ensures
        below(packed(layout.slots, values, n), span_before(layout.slots, n) as u64),
    decreases n,
{
    let slots = layout.slots;
    lemma_span_monotonic(slots, n, slots.len() as int);
    if n == 0 {
        assert(0u64 >> 0u64 == 0) by (bit_vector);
    } else {
        lemma_packed_below(layout, values, n - 1);
        lemma_span_monotonic(slots, n - 1, n);
        let slot = slots[n - 1];
        let lower = packed(slots, values, n - 1);
        if slot.kind is Reserved {
            lemma_below_widens(lower, slot.offset, span_before(slots, n) as u64);
        } else {
            lemma_place_on_top(
                lower,
                slot.integer_of(values[named_before(slots, n - 1)]),
                slot.offset,
                slot.width,
            );
        }
    }
}

/// After the first `n` slots are written, each of them reads back as what was
/// written to it: a reserved slot as zero, a named slot as the integer of its
/// value, cut to the slot's width.
pub proof fn lemma_packed_reads(layout: BitLayoutView, values: Seq<SlotValue>, i: int, n: int)
    requires
        layout.wf(),
        0 <= i < n <= layout.slots.len(),
    ensures
        extract(packed(layout.slots, values, n), layout.slots[i].offset, layout.slots[i].width)
            == if layout.slots[i].kind is Reserved {
            0
        } else {
            layout.slots[i].integer_of(values[named_before(layout.slots, i)]) & low_mask(
                layout.slots[i].width,
            )
        },
    decreases n,
{
    let slots = layout.slots;
    let top = slots[n - 1];
    let lower = packed(slots, values, n - 1);
    lemma_span_monotonic(slots, n, slots.len() as int);
    lemma_span_monotonic(slots, n - 1, n);
    lemma_packed_below(layout, values, n - 1);
    if i == n - 1 {
        if top.kind is Reserved {
            lemma_extract_above(lower, top.offset, top.offset, top.width);
        } else {
            lemma_place_on_top(
                lower,
                top.integer_of(values[named_before(slots, n - 1)]),
                top.offset,
                top.width,
            );
        }
    } else {
        lemma_packed_reads(layout, values, i, n - 1);
        lemma_span_monotonic(slots, i, n - 1);
        if !(top.kind is Reserved) {
            lemma_place_above(
                lower,
                top.integer_of(values[named_before(slots, n - 1)]),
                top.offset,
                top.width,
                slots[i].offset,
                slots[i].width,
            );
        }
    }
}

/// Reading the first `n` slots of an encoded container gives back the values of
/// the named slots among them.
pub proof fn lemma_unpacked_packed(layout: BitLayoutView, values: Seq<SlotValue>, n: int)
    requires
        layout.wf(),
        layout.holds(values),
        0 <= n <= layout.slots.len(),
    ensures
        unpacked(layout.slots, layout.encode(values), n) == Some(
            values.take(named_before(layout.slots, n)),
        ),
    decreases n,
{
    let slots = layout.slots;
    let raw = layout.encode(values);
    lemma_named_monotonic(slots, n, slots.len() as int);
    if n == 0 {
        assert(values.take(0) =~= Seq::empty());
    } else {
        lemma_unpacked_packed(layout, values, n - 1);
        let slot = slots[n - 1];
        let k = named_before(slots, n - 1);
        lemma_named_monotonic(slots, n - 1, slots.len() as int);
        if !(slot.kind is Reserved) {
            lemma_packed_reads(layout, values, n - 1, slots.len() as int);
            let value = values[k];
            assert(slot.holds(value));
            let x = slot.integer_of(value);
            match value {
                SlotValue::Number(_) => {
                    lemma_mask_keeps_small(x, slot.width);
                },
                SlotValue::Symbol(j) => {
                    lemma_symbol_round_trip(slot, j);
                    lemma_mask_keeps_small(x, slot.width);
                },
            }
            assert(values.take(k + 1) =~= values.take(k).push(value));
        }
    }
}

/// The first `n` slots can be read exactly if each enumerated slot among them
/// holds an integer that its domain declares.
pub proof fn lemma_unpacked_total(slots: Seq<SlotLayoutView>, raw: u64, n: int)
    requires
        0 <= n <= slots.len(),
    ensures
        unpacked(slots, raw, n) is Some <==> forall|i: int|
            0 <= i < n && (#[trigger] slots[i]).kind is Enumerated
                ==> slots[i].kind->Enumerated_0.contains(
                extract(raw, slots[i].offset, slots[i].width),
            ),
    decreases n,
{
    if n > 0 {
        lemma_unpacked_total(slots, raw, n - 1);
        let slot = slots[n - 1];
        if slot.kind is Enumerated {
            lemma_position_found(
                slot.kind->Enumerated_0,
                extract(raw, slot.offset, slot.width),
                0,
            );
        }
    }
}

/// Once a slot fails to read, every longer prefix fails to read.
pub proof fn lemma_unpacked_fails_on(slots: Seq<SlotLayoutView>, raw: u64, i: int, n: int)
    requires
        0 <= i < n <= slots.len(),
        !(slots[i].kind is Reserved),
        slots[i].value_of(extract(raw, slots[i].offset, slots[i].width)) is None,
    ensures
        unpacked(slots, raw, n) is None,
    decreases n,
{
    if i < n - 1 {
        lemma_unpacked_fails_on(slots, raw, i, n - 1);
    }
}

impl BitLayoutView {
    /// Decoding an encoded container gives back the values that were encoded,
    /// whenever each of them fits in its slot.
    pub proof fn lemma_round_trip(self, values: Seq<SlotValue>)
        requires
            self.wf(),
            self.holds(values),
        ensures
            self.decode(self.encode(values)) == Ok::<Seq<SlotValue>, CodecError>(values),
    {
        lemma_unpacked_packed(self, values, self.slots.len() as int);
        assert(values.take(self.named_count()) =~= values);
    }

    /// An encoded container has every reserved bit cleared, and no bit set
    /// outside the container's width, whatever values were encoded.
    pub proof fn lemma_reserved_clear(self, values: Seq<SlotValue>, i: int)
        requires
            self.wf(),
            0 <= i < self.slots.len(),
            self.slots[i].kind is Reserved,
        ensures
            extract(self.encode(values), self.slots[i].offset, self.slots[i].width) == 0,
            below(self.encode(values), self.bits),
    {
        lemma_packed_reads(self, values, i, self.slots.len() as int);
        lemma_packed_below(self, values, self.slots.len() as int);
    }

    /// An encoded container has every reserved bit cleared, whatever values
    /// were encoded.
    pub proof fn lemma_encode_clears_reserved(self, values: Seq<SlotValue>)
        requires
            self.wf(),
        ensures
            self.reserved_clear(self.encode(values)),
    {
        assert forall|i: int|
            0 <= i < self.slots.len() && (#[trigger] self.slots[i]).kind is Reserved implies extract(
            self.encode(values),
            self.slots[i].offset,
            self.slots[i].width,
        ) == 0 by {
            self.lemma_reserved_clear(values, i);
        }
    }

    /// When a container can be decoded: exactly if each enumerated slot holds
    /// an integer that its domain declares. What a numeric slot holds never
    /// matters.
    pub proof fn lemma_decode_total(self, raw: u64)
        ensures
            self.decode(raw) is Ok <==> self.declared(raw),
    {
        lemma_unpacked_total(self.slots, raw, self.slots.len() as int);
    }

    /// A container in which some enumerated slot holds an integer that the
    /// slot's domain does not declare fails to decode.
    pub proof fn lemma_undeclared_fails(self, raw: u64, i: int)
        requires
            0 <= i < self.slots.len(),
            self.slots[i].kind is Enumerated,
            !self.slots[i].kind->Enumerated_0.contains(
                extract(raw, self.slots[i].offset, self.slots[i].width),
            ),
        ensures
            self.decode(raw) == Err::<Seq<SlotValue>, CodecError>(
                CodecError::UndeclaredDiscriminant,
            ),
    {
        lemma_undeclared_has_no_value(
            self.slots[i],
            extract(raw, self.slots[i].offset, self.slots[i].width),
        );
        lemma_unpacked_fails_on(self.slots, raw, i, self.slots.len() as int);
    }
}

} // verus!
