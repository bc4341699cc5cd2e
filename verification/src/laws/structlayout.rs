//! What holds of the structure codec: decoding gives back what was encoded and
//! consumes exactly the frame, the size of a frame follows the variants taken,
//! and decoding fails exactly where the input runs out or a discriminant
//! selects nothing.
use vstd::prelude::*;
use crate::bytes::lemma_le_bytes_len;
use crate::bytes::lemma_le_value_of_bytes;
use crate::error::CodecError;
use crate::generate::bitlayout::position_from;
use crate::generate::structlayout::FieldLayoutView;
use crate::generate::structlayout::FieldValueView;
use crate::generate::structlayout::Plain;
use crate::generate::structlayout::PlainValueView;
use crate::generate::structlayout::StructLayoutView;
use crate::generate::structlayout::choices_before;
use crate::generate::structlayout::emitted;
use crate::generate::structlayout::flat_admits;
use crate::generate::structlayout::flat_bytes;
use crate::generate::structlayout::flat_holds;
use crate::generate::structlayout::flat_parse;
use crate::generate::structlayout::flat_size;
use crate::generate::structlayout::frame_size;
use crate::generate::structlayout::parsed;
use crate::generate::structlayout::selector_for;
use crate::generate::structlayout::size_with;
use crate::laws::bitlayout::lemma_position_found;

verus! {

/// The first `n` fields of a fixed shape write as many bytes as they occupy.
pub proof fn lemma_flat_bytes_len(shape: Seq<Plain>, values: Seq<PlainValueView>, n: int)
    requires
        flat_admits(shape, values),
        0 <= n <= shape.len(),
    ensures
        flat_bytes(shape, values, n).len() == flat_size(shape, n),
    decreases n,
{
    if n > 0 {
        lemma_flat_bytes_len(shape, values, n - 1);
        shape[n - 1].lemma_bytes_len(values[n - 1]);
    }
}

/// The size of a fixed shape grows with the prefix.
pub proof fn lemma_flat_size_monotonic(shape: Seq<Plain>, i: int, n: int)
    requires
        0 <= i <= n,
    ensures
        flat_size(shape, i) <= flat_size(shape, n),
    decreases n,
{
    if i < n {
        lemma_flat_size_monotonic(shape, i, n - 1);
    }
}

/// The first `n` fields of a fixed shape read back the values whose bytes lie
/// at `at`.
pub proof fn lemma_flat_round_trip(
    shape: Seq<Plain>,
    values: Seq<PlainValueView>,
    input: Seq<u8>,
    at: int,
    n: int,
)
    requires
        flat_holds(shape, values),
        0 <= n <= shape.len(),
        0 <= at,
        at + flat_size(shape, n) <= input.len(),
        input.subrange(at, at + flat_size(shape, n)) == flat_bytes(shape, values, n),
    ensures
        flat_parse(shape, input, at, n) == Some(values.take(n)),
    decreases n,
{
    if n == 0 {
        assert(values.take(0) =~= Seq::empty());
    } else {
        let lower = flat_bytes(shape, values, n - 1);
        let last = shape[n - 1].bytes_of(values[n - 1]);
        assert(flat_admits(shape, values)) by {
            assert forall|i: int| 0 <= i < shape.len() implies (#[trigger] shape[i]).admits(
                values[i],
            ) by {
                assert(shape[i].holds(values[i]));
            }
        }
        lemma_flat_bytes_len(shape, values, n - 1);
        shape[n - 1].lemma_bytes_len(values[n - 1]);
        let mid = at + flat_size(shape, n - 1);
        assert(input.subrange(at, mid) =~= lower) by {
            assert(input.subrange(at, mid) =~= input.subrange(
                at,
                at + flat_size(shape, n),
            ).subrange(0, lower.len() as int));
            assert((lower + last).subrange(0, lower.len() as int) =~= lower);
        }
        assert(input.subrange(mid, mid + shape[n - 1].size()) =~= last) by {
            assert(input.subrange(mid, mid + shape[n - 1].size()) =~= input.subrange(
                at,
                at + flat_size(shape, n),
            ).subrange(lower.len() as int, (lower.len() + last.len()) as int));
            assert((lower + last).subrange(lower.len() as int, (lower.len() + last.len()) as int)
                =~= last);
        }
        lemma_flat_round_trip(shape, values, input, at, n - 1);
        assert(shape[n - 1].holds(values[n - 1]));
        shape[n - 1].lemma_round_trip(values[n - 1], input, mid);
        assert(values.take(n) =~= values.take(n - 1).push(values[n - 1]));
    }
}

/// Once a field of a fixed shape cannot be read, no longer prefix can.
pub proof fn lemma_flat_parse_fails_on(shape: Seq<Plain>, input: Seq<u8>, at: int, i: int, n: int)
    requires
        0 <= i < n <= shape.len(),
        flat_parse(shape, input, at, i + 1) is None,
    ensures
        flat_parse(shape, input, at, n) is None,
    decreases n,
{
    if i + 1 < n {
        lemma_flat_parse_fails_on(shape, input, at, i, n - 1);
    }
}

/// The first `n` fields of a fixed shape can be read at a position `at` of the
/// input exactly if the input reaches to the end of the last of them.
pub proof fn lemma_flat_parse_total(shape: Seq<Plain>, input: Seq<u8>, at: int, n: int)
    requires
        0 <= at <= input.len(),
        0 <= n <= shape.len(),
    ensures
        flat_parse(shape, input, at, n) is Some <==> at + flat_size(shape, n) <= input.len(),
    decreases n,
{
    if n > 0 {
        lemma_flat_parse_total(shape, input, at, n - 1);
    }
}

/// The count of choice fields grows with the prefix.
pub proof fn lemma_choices_monotonic(fields: Seq<FieldLayoutView>, i: int, n: int)
    requires
        0 <= i <= n,
    ensures
        0 <= choices_before(fields, i) <= choices_before(fields, n) <= n,
        i < n && fields[i] is Choice ==> choices_before(fields, i) < choices_before(fields, n),
    decreases n,
{
    if n > 0 {
        if i < n {
            lemma_choices_monotonic(fields, i, n - 1);
        }
        lemma_choices_monotonic(fields, 0, n - 1);
    }
}

/// Once the size of a prefix is unknown, so is that of every longer one; and
/// known sizes grow with the prefix.
pub proof fn lemma_frame_size_monotonic(
    fields: Seq<FieldLayoutView>,
    selectors: Seq<u64>,
    i: int,
    n: int,
)
    requires
        0 <= i <= n,
    ensures
        frame_size(fields, selectors, i) is None ==> frame_size(fields, selectors, n) is None,
        frame_size(fields, selectors, n) is Some ==> frame_size(fields, selectors, i)->Some_0
            <= frame_size(fields, selectors, n)->Some_0,
    decreases n,
{
    if i < n {
        lemma_frame_size_monotonic(fields, selectors, i, n - 1);
    }
}

/// Once a field of a structure cannot be read, no longer prefix can, and the
/// failure stays that of the first such field.
pub proof fn lemma_parsed_fails_on(
    fields: Seq<FieldLayoutView>,
    input: Seq<u8>,
    selectors: Seq<u64>,
    i: int,
    n: int,
)
    requires
        0 <= i < n <= fields.len(),
        parsed(fields, input, selectors, i + 1) is Err,
    ensures
        parsed(fields, input, selectors, n) == parsed(fields, input, selectors, i + 1),
    decreases n,
{
    if i + 1 < n {
        lemma_parsed_fails_on(fields, input, selectors, i, n - 1);
    }
}

impl Plain {
    /// A field writes as many bytes as it occupies.
    pub proof fn lemma_bytes_len(self, value: PlainValueView)
        requires
            self.admits(value),
        ensures
            self.bytes_of(value).len() == self.size(),
    {
        if value is Int {
            lemma_le_bytes_len(value->Int_0 as nat, self.size());
        }
    }

    /// A field reads back the value whose bytes lie at `at`.
    pub proof fn lemma_round_trip(self, value: PlainValueView, input: Seq<u8>, at: int)
        requires
            self.holds(value),
            0 <= at,
            at + self.size() <= input.len(),
            input.subrange(at, at + self.size()) == self.bytes_of(value),
        ensures
            self.parse_at(input, at) == Some(value),
    {
        if value is Int {
            lemma_le_value_of_bytes(value->Int_0 as nat, self.size());
        }
    }
}

impl FieldLayoutView {
    /// A field writes as many bytes as it occupies with the value it holds.
    pub proof fn lemma_bytes_len(self, value: FieldValueView)
        requires
            self.admits(value),
        ensures
            self.bytes_of(value).len() == self.size_with(value),
    {
        match self {
            FieldLayoutView::Plain(plain) => {
                plain.lemma_bytes_len(value->Plain_0);
            },
            FieldLayoutView::Choice { tags, cases } => {
                let shape = cases[value->case as int];
                lemma_flat_bytes_len(shape, value->fields, shape.len() as int);
            },
        }
    }

    /// What fits is admitted.
    pub proof fn lemma_holds_admits(self, value: FieldValueView)
        requires
            self.holds(value),
        ensures
            self.admits(value),
    {
        match self {
            FieldLayoutView::Plain(plain) => {},
            FieldLayoutView::Choice { tags, cases } => {
                let shape = cases[value->case as int];
                assert forall|i: int| 0 <= i < shape.len() implies (#[trigger] shape[i]).admits(
                    value->fields[i],
                ) by {
                    assert(shape[i].holds(value->fields[i]));
                }
            },
        }
    }

    /// A field reads back the value whose bytes lie at `at`, when a choice is
    /// handed the discriminant of the case that the value took.
    pub proof fn lemma_round_trip(self, value: FieldValueView, input: Seq<u8>, at: int)
        requires
            self.wf(),
            self.holds(value),
            0 <= at,
            at + self.size_with(value) <= input.len(),
            input.subrange(at, at + self.size_with(value)) == self.bytes_of(value),
        ensures
            self.parse_at(
                input,
                at,
                if self is Choice {
                    Some(self->tags[value->case as int])
                } else {
                    None
                },
            ) == Ok::<(FieldValueView, int), CodecError>((value, at + self.size_with(value))),
    {
        match self {
            FieldLayoutView::Plain(plain) => {
                plain.lemma_round_trip(value->Plain_0, input, at);
            },
            FieldLayoutView::Choice { tags, cases } => {
                let c = value->case as int;
                lemma_position_found(tags, tags[c], 0);
                let shape = cases[c];
                lemma_flat_round_trip(shape, value->fields, input, at, shape.len() as int);
                assert(value->fields.take(shape.len() as int) =~= value->fields);
            },
        }
    }
}

impl StructLayoutView {
    /// What fits is admitted.
    pub proof fn lemma_holds_admits(self, values: Seq<FieldValueView>)
        requires
            self.holds(values),
        ensures
            self.admits(values),
    {
        assert forall|i: int| 0 <= i < self.fields.len() implies (#[trigger] self.fields[i]).admits(
            values[i],
        ) by {
            self.fields[i].lemma_holds_admits(values[i]);
        }
    }

    /// Variant sizing: the first `n` fields write exactly the bytes of the
    /// fixed fields among them and of the cases that their choice fields take.
    pub proof fn lemma_emitted_len(self, values: Seq<FieldValueView>, n: int)
        requires
            self.admits(values),
            0 <= n <= self.fields.len(),
        ensures
            emitted(self.fields, values, n).len() == size_with(self.fields, values, n),
        decreases n,
    {
        if n > 0 {
            self.lemma_emitted_len(values, n - 1);
            self.fields[n - 1].lemma_bytes_len(values[n - 1]);
        }
    }

    /// A layout without choice fields gives every frame the same size.
    pub proof fn lemma_fixed_size(self, a: Seq<FieldValueView>, b: Seq<FieldValueView>, n: int)
        requires
            self.fixed(),
            0 <= n <= self.fields.len(),
        ensures
            size_with(self.fields, a, n) == size_with(self.fields, b, n),
        decreases n,
    {
        if n > 0 {
            self.lemma_fixed_size(a, b, n - 1);
            assert(self.fields[n - 1] is Plain);
        }
    }

    /// The first `n` fields read back the values whose bytes lie at the start
    /// of `input`.
    pub proof fn lemma_parsed_emitted(
        self,
        values: Seq<FieldValueView>,
        selectors: Seq<u64>,
        input: Seq<u8>,
        n: int,
    )
        requires
            self.wf(),
            self.holds(values),
            self.selects(selectors, values),
            0 <= n <= self.fields.len(),
            size_with(self.fields, values, n) <= input.len(),
            input.subrange(0, size_with(self.fields, values, n) as int) == emitted(
                self.fields,
                values,
                n,
            ),
        ensures
            parsed(self.fields, input, selectors, n) == Ok::<
                (Seq<FieldValueView>, int),
                CodecError,
            >((values.take(n), size_with(self.fields, values, n) as int)),
        decreases n,
    {
        let fields = self.fields;
        if n == 0 {
            assert(values.take(0) =~= Seq::empty());
        } else {
            self.lemma_holds_admits(values);
            self.lemma_emitted_len(values, n - 1);
            self.lemma_emitted_len(values, n);
            let field = fields[n - 1];
            let value = values[n - 1];
            field.lemma_bytes_len(value);
            let lower = emitted(fields, values, n - 1);
            let last = field.bytes_of(value);
            let mid = size_with(fields, values, n - 1) as int;
            let end = size_with(fields, values, n) as int;
            assert(input.subrange(0, mid) =~= lower) by {
                assert(input.subrange(0, mid) =~= input.subrange(0, end).subrange(0, mid));
                assert((lower + last).subrange(0, mid) =~= lower);
            }
            assert(input.subrange(mid, end) =~= last) by {
                assert(input.subrange(mid, end) =~= input.subrange(0, end).subrange(mid, end));
                assert((lower + last).subrange(mid, end) =~= last);
            }
            self.lemma_parsed_emitted(values, selectors, input, n - 1);
            assert(field.wf() && field.holds(value));
            field.lemma_round_trip(value, input, mid);
            assert(values.take(n) =~= values.take(n - 1).push(value));
        }
    }

    /// Decoding the bytes of a frame, followed by anything at all, gives back
    /// the values that were encoded and consumes exactly the frame's bytes,
    /// provided that each value fits its field and the codec is handed the
    /// discriminants of the cases taken.
    pub proof fn lemma_round_trip(
        self,
        values: Seq<FieldValueView>,
        selectors: Seq<u64>,
        rest: Seq<u8>,
    )
        requires
            self.wf(),
            self.holds(values),
            self.selects(selectors, values),
        ensures
            self.decode(self.encode(values) + rest, selectors) == Ok::<
                (Seq<FieldValueView>, int),
                CodecError,
            >((values, self.encode(values).len() as int)),
            self.encode(values).len() == self.encoded_size(values),
    {
        let n = self.fields.len() as int;
        let bytes = self.encode(values);
        self.lemma_holds_admits(values);
        self.lemma_emitted_len(values, n);
        assert((bytes + rest).subrange(0, bytes.len() as int) =~= bytes);
        self.lemma_parsed_emitted(values, selectors, bytes + rest, n);
        assert(values.take(n) =~= values);
    }

    /// The discriminants of a frame decide the size of its first `n` fields:
    /// that of the fixed fields among them and of the cases selected.
    pub proof fn lemma_frame_size(self, values: Seq<FieldValueView>, selectors: Seq<u64>, n: int)
        requires
            self.wf(),
            self.admits(values),
            self.selects(selectors, values),
            0 <= n <= self.fields.len(),
        ensures
            frame_size(self.fields, selectors, n) == Some(size_with(self.fields, values, n)),
        decreases n,
    {
        if n > 0 {
            self.lemma_frame_size(values, selectors, n - 1);
            let field = self.fields[n - 1];
            assert(field.wf() && field.admits(values[n - 1]));
            if field is Choice {
                lemma_position_found(field->tags, field->tags[values[n - 1]->case as int], 0);
            }
        }
    }

    /// Variant sizing: the size of a frame is that of its fixed fields and of
    /// the cases that its discriminants select, and it is the number of bytes
    /// that encoding the frame gives.
    pub proof fn lemma_size_for(self, values: Seq<FieldValueView>, selectors: Seq<u64>)
        requires
            self.wf(),
            self.admits(values),
            self.selects(selectors, values),
        ensures
            self.size_for(selectors) == Some(self.encoded_size(values)),
            self.encode(values).len() == self.encoded_size(values),
    {
        self.lemma_frame_size(values, selectors, self.fields.len() as int);
        self.lemma_emitted_len(values, self.fields.len() as int);
    }

    /// When the first `n` fields can be read: exactly if every choice field
    /// among them has a discriminant that selects one of its cases and the
    /// input holds all the bytes of the fields so selected. Reading then stops
    /// after exactly those bytes. If the discriminants are sound and the input
    /// is too short, the failure is `TruncatedInput`.
    pub proof fn lemma_parsed_total(self, input: Seq<u8>, selectors: Seq<u64>, n: int)
        requires
            self.wf(),
            0 <= n <= self.fields.len(),
        ensures
            match frame_size(self.fields, selectors, n) {
                Some(size) => if size <= input.len() {
                    parsed(self.fields, input, selectors, n) is Ok && parsed(
                        self.fields,
                        input,
                        selectors,
                        n,
                    )->Ok_0.1 == size
                } else {
                    parsed(self.fields, input, selectors, n) == Err::<
                        (Seq<FieldValueView>, int),
                        CodecError,
                    >(CodecError::TruncatedInput)
                },
                None => parsed(self.fields, input, selectors, n) is Err,
            },
        decreases n,
    {
        if n > 0 {
            self.lemma_parsed_total(input, selectors, n - 1);
            let field = self.fields[n - 1];
            assert(field.wf());
            let lower = frame_size(self.fields, selectors, n - 1);
            let selector = selector_for(self.fields, selectors, n - 1);
            if lower is Some && lower->Some_0 <= input.len() && field is Choice && selector is Some {
                let tags = field->tags;
                lemma_position_found(tags, selector->Some_0, 0);
                if position_from(tags, selector->Some_0, 0) is Some {
                    let shape = field->cases[position_from(tags, selector->Some_0, 0)->Some_0];
                    lemma_flat_parse_total(
                        shape,
                        input,
                        lower->Some_0 as int,
                        shape.len() as int,
                    );
                }
            }
        }
    }

    /// When a frame can be decoded: exactly if every choice field has a
    /// discriminant that selects one of its cases and the input holds all the
    /// bytes of the frame so selected; decoding then consumes exactly those
    /// bytes. A frame with sound discriminants and too few bytes fails with
    /// `TruncatedInput`.
    pub proof fn lemma_decode_total(self, input: Seq<u8>, selectors: Seq<u64>)
        requires
            self.wf(),
        ensures
            self.decode(input, selectors) is Ok <==> self.size_for(selectors) is Some
                && self.size_for(selectors)->Some_0 <= input.len(),
            self.decode(input, selectors) is Ok ==> self.decode(input, selectors)->Ok_0.1
                == self.size_for(selectors)->Some_0,
            self.size_for(selectors) is Some && self.size_for(selectors)->Some_0 > input.len()
                ==> self.decode(input, selectors) == Err::<(Seq<FieldValueView>, int), CodecError>(
                CodecError::TruncatedInput,
            ),
    {
        self.lemma_parsed_total(input, selectors, self.fields.len() as int);
    }
}

} // verus!
