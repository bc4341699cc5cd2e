//! What holds of container schemas: which of them compile, and that a compiled
//! layout conserves the declared widths.
use vstd::prelude::*;
use crate::bits::below;
use crate::bits::extract;
use crate::bits::low_mask;
use crate::error::CodecError;
use crate::generate::bitfield::BitFieldView;
use crate::generate::bitfield::BitSlotView;
use crate::generate::bitfield::first_slot_defect;
use crate::generate::bitfield::name_repeats;
use crate::generate::bitfield::slot_defect;
use crate::generate::bitfield::width_before;
use crate::generate::bitlayout::SlotValue;
use crate::generate::bitlayout::span_before;
use crate::laws::bitlayout::lemma_symbol_round_trip;

verus! {

/// The widths before a slot never add up to more than the widths before a later
/// one.
pub proof fn lemma_width_monotonic(slots: Seq<BitSlotView>, i: int, n: int)
    requires
        0 <= i <= n,
    ensures
        0 <= width_before(slots, i) <= width_before(slots, n),
    decreases n,
{
    if i < n {
        lemma_width_monotonic(slots, i, n - 1);
    }
    if n > 0 {
        lemma_width_monotonic(slots, 0, n - 1);
    }
}

/// If no slot between `from` and `to` is defective, the first defect at or
/// after `from` is the first at or after `to`.
pub proof fn lemma_defect_skip(slots: Seq<BitSlotView>, from: int, to: int)
    requires
        0 <= from <= to <= slots.len(),
        forall|i: int| from <= i < to ==> slot_defect(slots, i) is None,
    ensures
        first_slot_defect(slots, from) == first_slot_defect(slots, to),
    decreases to - from,
{
    if from < to {
        lemma_defect_skip(slots, from + 1, to);
    }
}

/// A search for a defective slot finds none exactly if there is none.
pub proof fn lemma_defect_none(slots: Seq<BitSlotView>, from: int)
    requires
        0 <= from,
    ensures
        first_slot_defect(slots, from) is None <==> forall|i: int|
            from <= i < slots.len() ==> slot_defect(slots, i) is None,
    decreases slots.len() - from,
{
    if from < slots.len() {
        lemma_defect_none(slots, from + 1);
    }
}

impl BitFieldView {
    /// Compilation reports a defect exactly for the schemas that are not valid:
    /// no invalid schema gets as far as a layout.
    pub proof fn lemma_defect_iff_invalid(self)
        ensures
            self.defect() is None <==> self.valid(),
    {
        let slots = self.slots;
        lemma_defect_none(slots, 0);
        lemma_width_monotonic(slots, 0, slots.len() as int);
        if self.names_distinct() && self.domains_closed() {
            assert forall|i: int| 0 <= i < slots.len() implies slot_defect(slots, i) is None by {
                assert(slots[i].domain().fits(slots[i].width()));
            }
        }
        if forall|i: int| 0 <= i < slots.len() ==> slot_defect(slots, i) is None {
            assert forall|i: int, j: int|
                0 <= i < j < slots.len() && (#[trigger] slots[i]) is Named && (
                #[trigger] slots[j]) is Named implies slots[i]->name != slots[j]->name by {
                assert(slot_defect(slots, j) is None);
                assert(!name_repeats(slots, j));
            }
            assert forall|i: int| 0 <= i < slots.len() implies {
                &&& (#[trigger] slots[i]).domain().fits(slots[i].width())
                &&& slots[i].domain().distinct()
            } by {
                assert(slot_defect(slots, i) is None);
            }
        }
    }

    /// The slots of a compiled layout are those of the schema, each as wide as
    /// declared, and their widths add up to what the schema's do.
    pub proof fn lemma_layout_spans(self, n: int)
        requires
            0 <= n <= self.slots.len(),
            self.total_width() <= 64,
        ensures
            span_before(self.layout().slots, n) == width_before(self.slots, n),
        decreases n,
    {
        if n > 0 {
            self.lemma_layout_spans(n - 1);
        }
    }

    /// Width conservation: a valid schema compiles to a well-formed layout,
    /// whose slot widths add up to exactly the container's width.
    pub proof fn lemma_valid_layout(self)
        requires
            self.valid(),
        ensures
            self.layout().wf(),
            span_before(self.layout().slots, self.layout().slots.len() as int)
                == self.layout().bits,
            self.layout().bits == self.total_width(),
    {
        let slots = self.slots;
        let layout = self.layout();
        self.lemma_layout_spans(slots.len() as int);
        assert forall|i: int| 0 <= i < layout.slots.len() implies {
            &&& (#[trigger] layout.slots[i]).offset == span_before(layout.slots, i)
            &&& layout.slots[i].closed()
        } by {
            self.lemma_layout_spans(i);
            lemma_width_monotonic(slots, i, slots.len() as int);
            let domain = slots[i].domain();
            assert(domain.fits(slots[i].width()) && domain.distinct());
            if layout.slots[i].kind is Enumerated {
                let values = layout.slots[i].kind->Enumerated_0;
                assert(values == domain.values());
                assert forall|j: int| 0 <= j < values.len() implies #[trigger] values[j]
                    <= low_mask(layout.slots[i].width) by {
                    assert(domain.symbols()[j].value <= low_mask(slots[i].width()));
                }
                assert forall|j: int, k: int| 0 <= j < k < values.len() implies values[j]
                    != values[k] by {
                    assert(domain.symbols()[j].value != domain.symbols()[k].value);
                }
            }
        }
    }

    /// Round trip: for a valid schema, decoding the container that encodes
    /// `values` gives back `values`, whenever each value is of the sort of its
    /// slot and fits in it.
    pub proof fn lemma_round_trip(self, values: Seq<SlotValue>)
        requires
            self.valid(),
            self.layout().holds(values),
        ensures
            self.layout().decode(self.layout().encode(values)) == Ok::<
                Seq<SlotValue>,
                CodecError,
            >(values),
    {
        self.lemma_valid_layout();
        self.layout().lemma_round_trip(values);
    }

    /// Reserved-bit hygiene: for a valid schema, the container that encodes any
    /// values at all has the bits of every reserved slot cleared, and no bit
    /// set outside the container's width.
    pub proof fn lemma_reserved_clear(self, values: Seq<SlotValue>, i: int)
        requires
            self.valid(),
            0 <= i < self.slots.len(),
            self.slots[i] is Reserved,
        ensures
            extract(
                self.layout().encode(values),
                width_before(self.slots, i) as u64,
                self.slots[i].width(),
            ) == 0,
            below(self.layout().encode(values), self.total_width() as u64),
    {
        self.lemma_valid_layout();
        self.layout().lemma_reserved_clear(values, i);
    }

    /// Enum closure, for the declared: in a valid schema the `j`-th symbol of
    /// an enumerated slot is encoded as exactly its declared integer, and that
    /// integer is decoded as the `j`-th symbol.
    pub proof fn lemma_symbol_round_trip(self, i: int, j: usize)
        requires
            self.valid(),
            0 <= i < self.slots.len(),
            self.slots[i].domain() is Enumerated,
            j < self.slots[i].domain().symbols().len(),
        ensures
            self.layout().slots[i].integer_of(SlotValue::Symbol(j))
                == self.slots[i].domain().symbols()[j as int].value,
            self.layout().slots[i].value_of(self.slots[i].domain().symbols()[j as int].value)
                == Some(SlotValue::Symbol(j)),
    {
        self.lemma_valid_layout();
        lemma_symbol_round_trip(self.layout().slots[i], j);
    }

    /// Enum closure, for the undeclared: a container in which an enumerated
    /// slot holds an integer that the slot's domain does not declare fails to
    /// decode with `UndeclaredDiscriminant`.
    pub proof fn lemma_undeclared_fails(self, raw: u64, i: int)
        requires
            0 <= i < self.slots.len(),
            self.total_width() <= 64,
            self.slots[i].domain() is Enumerated,
            forall|j: int|
                0 <= j < self.slots[i].domain().symbols().len()
                    ==> (#[trigger] self.slots[i].domain().symbols()[j]).value != extract(
                    raw,
                    width_before(self.slots, i) as u64,
                    self.slots[i].width(),
                ),
        ensures
            self.layout().decode(raw) == Err::<Seq<SlotValue>, CodecError>(
                CodecError::UndeclaredDiscriminant,
            ),
    {
        let slot = self.layout().slots[i];
        let values = slot.kind->Enumerated_0;
        let x = extract(raw, slot.offset, slot.width);
        assert(!values.contains(x)) by {
            if values.contains(x) {
                let j = choose|j: int| 0 <= j < values.len() && values[j] == x;
                assert(self.slots[i].domain().symbols()[j].value == x);
            }
        }
        self.layout().lemma_undeclared_fails(raw, i);
    }
}

} // verus!
