//! What holds of structure schemas: a schema without a defect compiles to a
//! well-formed layout.
use vstd::prelude::*;
use crate::error::CodecError;
use crate::generate::bitlayout::all_different;
use crate::generate::structlayout::FieldValueView;
use crate::generate::structlayout::flat_wf;
use crate::generate::structure::GroupView;
use crate::generate::structure::StructFieldView;
use crate::generate::structure::StructureView;
use crate::generate::structure::case_defect;
use crate::generate::structure::case_name_repeats;
use crate::generate::structure::field_defect;
use crate::generate::structure::field_name_repeats;
use crate::generate::structure::first_case_defect;
use crate::generate::structure::first_field_defect;
use crate::generate::structure::first_flat_defect;
use crate::generate::structure::flat_field_defect;
use crate::generate::structure::group_named;
use crate::generate::structure::others;
use crate::generate::structure::width_defect;

verus! {

/// If no field between `from` and `to` keeps the structure from being a fixed
/// shape, the first such defect at or after `from` is the first at or after
/// `to`.
pub proof fn lemma_flat_defect_skip(fields: Seq<StructFieldView>, from: int, to: int)
    requires
        0 <= from <= to <= fields.len(),
        forall|i: int| from <= i < to ==> flat_field_defect(fields, i) is None,
    ensures
        first_flat_defect(fields, from) == first_flat_defect(fields, to),
    decreases to - from,
{
    if from < to {
        lemma_flat_defect_skip(fields, from + 1, to);
    }
}

/// A structure is a fixed shape exactly if none of its fields keeps it from
/// being one.
pub proof fn lemma_flat_defect_none(fields: Seq<StructFieldView>, from: int)
    requires
        0 <= from,
    ensures
        first_flat_defect(fields, from) is None <==> forall|i: int|
            from <= i < fields.len() ==> flat_field_defect(fields, i) is None,
    decreases fields.len() - from,
{
    if from < fields.len() {
        lemma_flat_defect_none(fields, from + 1);
    }
}

/// If no case between `from` and `to` is defective, the first defect at or
/// after `from` is the first at or after `to`.
pub proof fn lemma_case_defect_skip(cases: Seq<StructureView>, from: int, to: int)
    requires
        0 <= from <= to <= cases.len(),
        forall|c: int| from <= c < to ==> case_defect(cases, c) is None,
    ensures
        first_case_defect(cases, from) == first_case_defect(cases, to),
    decreases to - from,
{
    if from < to {
        lemma_case_defect_skip(cases, from + 1, to);
    }
}

/// A search for a defective case finds none exactly if there is none.
pub proof fn lemma_case_defect_none(cases: Seq<StructureView>, from: int)
    requires
        0 <= from,
    ensures
        first_case_defect(cases, from) is None <==> forall|c: int|
            from <= c < cases.len() ==> case_defect(cases, c) is None,
    decreases cases.len() - from,
{
    if from < cases.len() {
        lemma_case_defect_none(cases, from + 1);
    }
}

/// If no field between `from` and `to` is defective, the first defect at or
/// after `from` is the first at or after `to`.
pub proof fn lemma_field_defect_skip(
    fields: Seq<StructFieldView>,
    groups: Seq<GroupView>,
    from: int,
    to: int,
)
    requires
        0 <= from <= to <= fields.len(),
        forall|i: int| from <= i < to ==> field_defect(fields, i, groups) is None,
    ensures
        first_field_defect(fields, groups, from) == first_field_defect(fields, groups, to),
    decreases to - from,
{
    if from < to {
        lemma_field_defect_skip(fields, groups, from + 1, to);
    }
}

/// A search for a defective field finds none exactly if there is none.
pub proof fn lemma_field_defect_none(fields: Seq<StructFieldView>, groups: Seq<GroupView>, from: int)
    requires
        0 <= from,
    ensures
        first_field_defect(fields, groups, from) is None <==> forall|i: int|
            from <= i < fields.len() ==> field_defect(fields, i, groups) is None,
    decreases fields.len() - from,
{
    if from < fields.len() {
        lemma_field_defect_none(fields, groups, from + 1);
    }
}

/// If no group between `from` and `to` is called `name`, a search from `from`
/// finds what a search from `to` finds.
pub proof fn lemma_group_named_skip(groups: Seq<GroupView>, name: Seq<char>, from: int, to: int)
    requires
        0 <= from <= to <= groups.len(),
        forall|g: int| from <= g < to ==> groups[g].name != name,
    ensures
        group_named(groups, name, from) == group_named(groups, name, to),
    decreases to - from,
{
    if from < to {
        lemma_group_named_skip(groups, name, from + 1, to);
    }
}

/// A group found by name is one of the groups.
pub proof fn lemma_group_named_in_range(groups: Seq<GroupView>, name: Seq<char>, from: int)
    requires
        0 <= from,
    ensures
        match group_named(groups, name, from) {
            Some(g) => from <= g < groups.len() && groups[g].name == name,
            None => true,
        },
    decreases groups.len() - from,
{
    if from < groups.len() && groups[from].name != name {
        lemma_group_named_in_range(groups, name, from + 1);
    }
}

/// Each of the integers other than zero is one of the domain's, and none of
/// them is zero.
pub proof fn lemma_others_members(domain: Seq<u64>, n: int)
    requires
        0 <= n <= domain.len(),
    ensures
        others(domain, n).len() <= n,
        forall|a: int|
            0 <= a < others(domain, n).len() ==> (#[trigger] others(domain, n)[a]) != 0 && exists|
                j: int,
            |
                0 <= j < n && domain[j] == others(domain, n)[a],
    decreases n,
{
    if n > 0 {
        lemma_others_members(domain, n - 1);
        let lower = others(domain, n - 1);
        assert forall|a: int| 0 <= a < others(domain, n).len() implies (#[trigger] others(
            domain,
            n,
        )[a]) != 0 && exists|j: int| 0 <= j < n && domain[j] == others(domain, n)[a] by {
            if a < lower.len() {
                assert(others(domain, n)[a] == lower[a]);
                let j = choose|j: int| 0 <= j < n - 1 && domain[j] == lower[a];
                assert(0 <= j < n && domain[j] == others(domain, n)[a]);
            } else {
                assert(domain[n - 1] == others(domain, n)[a]);
            }
        }
    }
}

/// If no integer occurs twice in the domain, none occurs twice among those
/// other than zero.
pub proof fn lemma_others_different(domain: Seq<u64>, n: int)
    requires
        0 <= n <= domain.len(),
        all_different(domain),
    ensures
        all_different(others(domain, n)),
    decreases n,
{
    if n > 0 {
        lemma_others_different(domain, n - 1);
        lemma_others_members(domain, n - 1);
        let lower = others(domain, n - 1);
        assert forall|a: int, b: int| 0 <= a < b < others(domain, n).len() implies others(
            domain,
            n,
        )[a] != others(domain, n)[b] by {
            if b < lower.len() {
                assert(lower[a] != lower[b]);
            } else {
                let j = choose|j: int| 0 <= j < n - 1 && domain[j] == lower[a];
                assert(domain[j] != domain[n - 1]);
            }
        }
    }
}

/// If zero occurs once in the domain, the integers other than zero are all but
/// one of the domain's.
pub proof fn lemma_others_count(domain: Seq<u64>, zero: int, n: int)
    requires
        0 <= n <= domain.len(),
        0 <= zero < domain.len(),
        domain[zero] == 0,
        all_different(domain),
    ensures
        others(domain, n).len() == if zero < n {
            n - 1
        } else {
            n
        },
    decreases n,
{
    if n > 0 {
        lemma_others_count(domain, zero, n - 1);
        if n - 1 != zero {
            if n - 1 < zero {
                assert(domain[n - 1] != domain[zero]);
            } else {
                assert(domain[zero] != domain[n - 1]);
            }
        }
    }
}

impl StructureView {
    /// A structure without a defect as a fixed shape compiles to fields that
    /// are well formed.
    pub proof fn lemma_flat_layout_wf(self)
        requires
            self.flat_defect() is None,
        ensures
            flat_wf(self.flat_layout()),
    {
        lemma_flat_defect_none(self.fields, 0);
        assert forall|i: int| 0 <= i < self.flat_layout().len() implies (
        #[trigger] self.flat_layout()[i]).wf() by {
            assert(flat_field_defect(self.fields, i) is None);
        }
    }

    /// A structure without a defect has no two fields of the same name, and
    /// compiles to a layout that is well formed.
    pub proof fn lemma_sound_layout(self, groups: Seq<GroupView>)
        requires
            self.defect(groups) is None,
        ensures
            self.names_distinct(),
            self.layout(groups).wf(),
    {
        let fields = self.fields;
        lemma_field_defect_none(fields, groups, 0);
        assert forall|i: int, j: int| 0 <= i < j < fields.len() implies (#[trigger] fields[i]).name()
            != (#[trigger] fields[j]).name() by {
            assert(field_defect(fields, j, groups) is None);
            assert(!field_name_repeats(fields, j));
        }
        let layout = self.layout(groups);
        assert forall|i: int| 0 <= i < layout.fields.len() implies (#[trigger] layout.fields[i]).wf() by {
            assert(field_defect(fields, i, groups) is None);
            if fields[i] is Alternative {
                lemma_group_named_in_range(groups, fields[i]->group, 0);
                let g = group_named(groups, fields[i]->group, 0)->Some_0;
                groups[g].lemma_sound_layout();
            }
        }
    }

    /// Round trip: for a sound structure, decoding the bytes of the frame that
    /// holds `values`, followed by anything at all, gives back `values` and
    /// consumes exactly the frame, provided that each value fits its field and
    /// that the discriminants handed in are those of the variants taken.
    pub proof fn lemma_round_trip(
        self,
        groups: Seq<GroupView>,
        values: Seq<FieldValueView>,
        selectors: Seq<u64>,
        rest: Seq<u8>,
    )
        requires
            self.valid(groups),
            self.layout(groups).holds(values),
            self.layout(groups).selects(selectors, values),
        ensures
            self.layout(groups).decode(self.layout(groups).encode(values) + rest, selectors)
                == Ok::<(Seq<FieldValueView>, int), CodecError>(
                (values, self.layout(groups).encode(values).len() as int),
            ),
    {
        self.lemma_defect_iff_invalid(groups);
        self.lemma_sound_layout(groups);
        self.layout(groups).lemma_round_trip(values, selectors, rest);
    }

    /// Variant sizing: for a sound structure, the frame that holds `values` is
    /// as long as its fixed fields and the variants that its alternative fields
    /// take, and that length is decided by the discriminants alone.
    pub proof fn lemma_frame_size(
        self,
        groups: Seq<GroupView>,
        values: Seq<FieldValueView>,
        selectors: Seq<u64>,
    )
        requires
            self.valid(groups),
            self.layout(groups).admits(values),
            self.layout(groups).selects(selectors, values),
        ensures
            self.layout(groups).encode(values).len() == self.layout(groups).encoded_size(values),
            self.layout(groups).size_for(selectors) == Some(
                self.layout(groups).encoded_size(values),
            ),
    {
        self.lemma_defect_iff_invalid(groups);
        self.lemma_sound_layout(groups);
        self.layout(groups).lemma_size_for(values, selectors);
    }

    /// Truncation: for a sound structure whose discriminants each select a
    /// variant, decoding an input shorter than the frame so selected fails with
    /// `TruncatedInput`, and decoding any other input succeeds.
    pub proof fn lemma_truncation(self, groups: Seq<GroupView>, input: Seq<u8>, selectors: Seq<u64>)
        requires
            self.valid(groups),
            self.layout(groups).size_for(selectors) is Some,
        ensures
            self.layout(groups).size_for(selectors)->Some_0 > input.len() ==> self.layout(
                groups,
            ).decode(input, selectors) == Err::<(Seq<FieldValueView>, int), CodecError>(
                CodecError::TruncatedInput,
            ),
            self.layout(groups).size_for(selectors)->Some_0 <= input.len() ==> self.layout(
                groups,
            ).decode(input, selectors) is Ok,
    {
        self.lemma_defect_iff_invalid(groups);
        self.lemma_sound_layout(groups);
        self.layout(groups).lemma_decode_total(input, selectors);
    }
}

impl GroupView {
    /// A group without a defect compiles to a choice that is well formed: one
    /// discriminant for each of its `1 + variants` cases, and no discriminant
    /// twice.
    pub proof fn lemma_sound_layout(self)
        requires
            self.defect() is None,
        ensures
            self.layout().wf(),
            self.layout()->cases.len() == 1 + self.variants.len(),
            self.layout()->tags.len() == 1 + self.variants.len(),
    {
        let cases = self.cases();
        let tags = self.tags();
        lemma_case_defect_none(cases, 0);
        assert forall|c: int| 0 <= c < cases.len() implies flat_wf(
            #[trigger] self.layout()->cases[c],
        ) by {
            assert(case_defect(cases, c) is None);
            cases[c].lemma_flat_layout_wf();
        }
        match self.selector {
            None => {},
            Some(domain) => {
                let n = domain.len() as int;
                let zero = choose|z: int| 0 <= z < domain.len() && domain[z] == 0;
                lemma_others_count(domain, zero, n);
                lemma_others_different(domain, n);
                lemma_others_members(domain, n);
                let rest = others(domain, n);
                assert forall|a: int, b: int| 0 <= a < b < tags.len() implies tags[a]
                    != tags[b] by {
                    assert(tags[b] == rest[b - 1]);
                    if a > 0 {
                        assert(tags[a] == rest[a - 1]);
                    }
                }
            },
        }
    }
}

impl StructureView {
    /// Compilation as a fixed shape reports a defect exactly for the structures
    /// that are not sound ones of fixed shape.
    pub proof fn lemma_flat_defect_iff_invalid(self)
        ensures
            self.flat_defect() is None <==> self.flat_valid(),
    {
        let fields = self.fields;
        lemma_flat_defect_none(fields, 0);
        if self.flat_valid() {
            assert forall|i: int| 0 <= i < fields.len() implies flat_field_defect(fields, i)
                is None by {
                assert(!(fields[i] is Alternative));
                assert(!field_name_repeats(fields, i));
            }
        }
        if forall|i: int| 0 <= i < fields.len() ==> flat_field_defect(fields, i) is None {
            assert forall|i: int, j: int| 0 <= i < j < fields.len() implies (
            #[trigger] fields[i]).name() != (#[trigger] fields[j]).name() by {
                assert(flat_field_defect(fields, j) is None);
                assert(!field_name_repeats(fields, j));
            }
            assert forall|i: int| 0 <= i < fields.len() implies match #[trigger] fields[i] {
                StructFieldView::FixedInt { width, .. } => width_defect(width) is None,
                StructFieldView::EmbeddedBitfield { width, .. } => width_defect(width) is None,
                _ => true,
            } by {
                assert(flat_field_defect(fields, i) is None);
            }
            assert forall|i: int| 0 <= i < fields.len() implies !((#[trigger] fields[i])
                is Alternative) by {
                assert(flat_field_defect(fields, i) is None);
            }
        }
    }

    /// Compilation against `groups` reports a defect exactly for the structures
    /// that are not sound with respect to `groups`.
    pub proof fn lemma_defect_iff_invalid(self, groups: Seq<GroupView>)
        ensures
            self.defect(groups) is None <==> self.valid(groups),
    {
        let fields = self.fields;
        lemma_field_defect_none(fields, groups, 0);
        assert forall|g: int| 0 <= g < groups.len() implies ((#[trigger] groups[g]).defect() is None
            <==> groups[g].valid()) by {
            groups[g].lemma_defect_iff_invalid();
        }
        assert forall|i: int| 0 <= i < fields.len() && (#[trigger] fields[i]) is Alternative implies (
        match group_named(groups, fields[i]->group, 0) {
            Some(g) => 0 <= g < groups.len(),
            None => true,
        }) by {
            lemma_group_named_in_range(groups, fields[i]->group, 0);
        }
        if self.valid(groups) {
            assert forall|i: int| 0 <= i < fields.len() implies field_defect(fields, i, groups)
                is None by {
                assert(!field_name_repeats(fields, i));
                if fields[i] is Alternative {
                    assert(group_named(groups, fields[i]->group, 0) is Some);
                }
            }
        }
        if forall|i: int| 0 <= i < fields.len() ==> field_defect(fields, i, groups) is None {
            assert forall|i: int, j: int| 0 <= i < j < fields.len() implies (
            #[trigger] fields[i]).name() != (#[trigger] fields[j]).name() by {
                assert(field_defect(fields, j, groups) is None);
                assert(!field_name_repeats(fields, j));
            }
            assert forall|i: int| 0 <= i < fields.len() implies match #[trigger] fields[i] {
                StructFieldView::FixedInt { width, .. } => width_defect(width) is None,
                StructFieldView::EmbeddedBitfield { width, .. } => width_defect(width) is None,
                _ => true,
            } by {
                assert(field_defect(fields, i, groups) is None);
            }
            assert forall|i: int|
                0 <= i < fields.len() && (#[trigger] fields[i]) is Alternative implies {
                &&& group_named(groups, fields[i]->group, 0) is Some
                &&& groups[group_named(groups, fields[i]->group, 0)->Some_0].valid()
            } by {
                assert(field_defect(fields, i, groups) is None);
            }
        }
    }
}

impl GroupView {
    /// Compilation reports a defect exactly for the groups that are not sound.
    pub proof fn lemma_defect_iff_invalid(self)
        ensures
            self.defect() is None <==> self.valid(),
    {
        let cases = self.cases();
        lemma_case_defect_none(cases, 0);
        assert forall|c: int| 0 <= c < cases.len() implies (cases[c].flat_defect() is None
            <==> (#[trigger] cases[c]).flat_valid()) by {
            cases[c].lemma_flat_defect_iff_invalid();
        }
        if self.cases_distinct() && (forall|c: int|
            0 <= c < cases.len() ==> (#[trigger] cases[c]).flat_valid()) {
            assert forall|c: int| 0 <= c < cases.len() implies case_defect(cases, c) is None by {
                assert(cases[c].flat_valid());
                assert(!case_name_repeats(cases, c));
            }
        }
        if forall|c: int| 0 <= c < cases.len() ==> case_defect(cases, c) is None {
            assert forall|b: int, c: int| 0 <= b < c < cases.len() implies (#[trigger] cases[b]).name
                != (#[trigger] cases[c]).name by {
                assert(case_defect(cases, c) is None);
                assert(!case_name_repeats(cases, c));
            }
            assert forall|c: int| 0 <= c < cases.len() implies (#[trigger] cases[c]).flat_valid() by {
                assert(case_defect(cases, c) is None);
            }
        }
    }
}

} // verus!
