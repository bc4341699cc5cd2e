//! Compiled structures: the byte layout of a frame, and the codec that writes
//! field values out in declaration order and reads them back.
//!
//! A field of fixed shape always occupies the same number of bytes. A choice
//! field occupies the bytes of the shape that the frame's discriminant selects,
//! with no padding and no length prefix; the discriminant itself travels
//! elsewhere and is handed to the codec.
use vstd::prelude::*;
use crate::bytes::get_le;
use crate::bytes::le_bytes;
use crate::bytes::le_value;
use crate::bytes::lemma_le_value_bound;
use crate::bytes::lemma_pow256_values;
use crate::bytes::pow256;
use crate::bytes::put_le;
use crate::error::CodecError;
use crate::generate::bitlayout::all_different;
use crate::generate::bitlayout::position_from;
use crate::laws::bitlayout::lemma_position_skip;
use crate::laws::structlayout::lemma_choices_monotonic;
use crate::laws::structlayout::lemma_flat_parse_fails_on;
use crate::laws::structlayout::lemma_flat_size_monotonic;
use crate::laws::structlayout::lemma_frame_size_monotonic;
use crate::laws::structlayout::lemma_parsed_fails_on;

verus! {

/// A field of fixed shape, by what it holds and how many bytes it takes.
#[derive(Clone, Copy, Debug, PartialEq, Eq, Structural)]
pub enum Plain {
    /// An unsigned integer, least significant byte first.
    Int(usize),
    /// Raw bytes.
    Bytes(usize),
}

/// The value of a field of fixed shape.
#[derive(Debug, PartialEq, Eq)]
pub enum PlainValue {
    Int(u64),
    Bytes(Vec<u8>),
}

/// The mathematical content of a [`PlainValue`].
pub enum PlainValueView {
    Int(u64),
    Bytes(Seq<u8>),
}

impl View for PlainValue {
    type V = PlainValueView;

    open spec fn view(&self) -> PlainValueView {
        match self {
            PlainValue::Int(x) => PlainValueView::Int(*x),
            PlainValue::Bytes(bytes) => PlainValueView::Bytes(bytes@),
        }
    }
}

impl Clone for PlainValue {
    fn clone(&self) -> (copy: PlainValue)
        ensures
            copy@ == self@,
    {
        match self {
            PlainValue::Int(x) => PlainValue::Int(*x),
            PlainValue::Bytes(bytes) => PlainValue::Bytes(bytes.clone()),
        }
    }
}

impl Plain {
    /// The number of bytes that the field occupies.
    pub open spec fn size(self) -> nat {
        match self {
            Plain::Int(width) => width as nat,
            Plain::Bytes(width) => width as nat,
        }
    }

    /// An integer field is 1, 2, 4 or 8 bytes wide.
    pub open spec fn wf(self) -> bool {
        match self {
            Plain::Int(width) => width == 1 || width == 2 || width == 4 || width == 8,
            Plain::Bytes(_) => true,
        }
    }

    /// Whether `value` is of the sort and the length that the field takes.
    pub open spec fn admits(self, value: PlainValueView) -> bool {
        match self {
            Plain::Int(_) => value is Int,
            Plain::Bytes(width) => value is Bytes && value->Bytes_0.len() == width,
        }
    }

    /// Whether `value` is admitted and, if an integer, fits in the field.
    pub open spec fn holds(self, value: PlainValueView) -> bool {
        &&& self.admits(value)
        &&& value is Int ==> (value->Int_0 as nat) < pow256(self.size())
    }

    /// The bytes that the field writes for `value`. An integer wider than the
    /// field is cut to the field's low bytes.
    pub open spec fn bytes_of(self, value: PlainValueView) -> Seq<u8> {
        match value {
            PlainValueView::Int(x) => le_bytes(x as nat, self.size()),
            PlainValueView::Bytes(bytes) => bytes,
        }
    }

    /// The value that the field reads from `input` at position `at`; nothing if
    /// fewer bytes remain there than the field occupies.
    pub open spec fn parse_at(self, input: Seq<u8>, at: int) -> Option<PlainValueView> {
        if at + self.size() > input.len() {
            None
        } else {
            let bytes = input.subrange(at, at + self.size());
            match self {
                Plain::Int(_) => Some(PlainValueView::Int(le_value(bytes) as u64)),
                Plain::Bytes(_) => Some(PlainValueView::Bytes(bytes)),
            }
        }
    }
}

/// The views of a list of plain values, in order.
pub open spec fn plain_values_view(values: Seq<PlainValue>) -> Seq<PlainValueView> {
    Seq::new(values.len(), |i: int| values[i]@)
}

/// The number of bytes that the first `n` fields of a fixed shape occupy.
pub open spec fn flat_size(shape: Seq<Plain>, n: int) -> nat
    decreases n,
{
    if n <= 0 {
        0
    } else {
        flat_size(shape, n - 1) + shape[n - 1].size()
    }
}

/// Every field of the shape is well formed.
pub open spec fn flat_wf(shape: Seq<Plain>) -> bool {
    forall|i: int| 0 <= i < shape.len() ==> (#[trigger] shape[i]).wf()
}

/// Whether `values` holds one admitted value for each field of the shape.
pub open spec fn flat_admits(shape: Seq<Plain>, values: Seq<PlainValueView>) -> bool {
    &&& values.len() == shape.len()
    &&& forall|i: int| 0 <= i < shape.len() ==> (#[trigger] shape[i]).admits(values[i])
}

/// Whether `values` holds one fitting value for each field of the shape.
pub open spec fn flat_holds(shape: Seq<Plain>, values: Seq<PlainValueView>) -> bool {
    &&& values.len() == shape.len()
    &&& forall|i: int| 0 <= i < shape.len() ==> (#[trigger] shape[i]).holds(values[i])
}

/// The bytes that the first `n` fields of a fixed shape write.
pub open spec fn flat_bytes(shape: Seq<Plain>, values: Seq<PlainValueView>, n: int) -> Seq<u8>
    decreases n,
{
    if n <= 0 {
        Seq::empty()
    } else {
        flat_bytes(shape, values, n - 1) + shape[n - 1].bytes_of(values[n - 1])
    }
}

/// The values that the first `n` fields of a fixed shape read from `input`, the
/// first field beginning at `at`; nothing if the input ends before the last of
/// them does.
pub open spec fn flat_parse(shape: Seq<Plain>, input: Seq<u8>, at: int, n: int) -> Option<
    Seq<PlainValueView>,
>
    decreases n,
{
    if n <= 0 {
        Some(Seq::empty())
    } else {
        match flat_parse(shape, input, at, n - 1) {
            None => None,
            Some(lower) => match shape[n - 1].parse_at(input, at + flat_size(shape, n - 1)) {
                None => None,
                Some(value) => Some(lower.push(value)),
            },
        }
    }
}

/// The layout of one field of a structure.
#[derive(Debug)]
pub enum FieldLayout {
    /// A field of fixed shape.
    Plain(Plain),
    /// A field that takes the shape `cases[c]` when the discriminant is
    /// `tags[c]`. Case 0 is the fallback.
    Choice { tags: Vec<u64>, cases: Vec<Vec<Plain>> },
}

/// The mathematical content of a [`FieldLayout`].
pub enum FieldLayoutView {
    Plain(Plain),
    Choice { tags: Seq<u64>, cases: Seq<Seq<Plain>> },
}

/// The views of a list of shapes, in order.
pub open spec fn cases_view(cases: Seq<Vec<Plain>>) -> Seq<Seq<Plain>> {
    Seq::new(cases.len(), |c: int| cases[c]@)
}

impl View for FieldLayout {
    type V = FieldLayoutView;

    open spec fn view(&self) -> FieldLayoutView {
        match self {
            FieldLayout::Plain(plain) => FieldLayoutView::Plain(*plain),
            FieldLayout::Choice { tags, cases } => FieldLayoutView::Choice {
                tags: tags@,
                cases: cases_view(cases@),
            },
        }
    }
}

/// The value of one field of a structure.
#[derive(Debug, PartialEq, Eq)]
pub enum FieldValue {
    /// The value of a field of fixed shape.
    Plain(PlainValue),
    /// The value of a choice field: which case it took, 0 being the fallback,
    /// and the values of that case's fields.
    Variant { case: usize, fields: Vec<PlainValue> },
}

/// The mathematical content of a [`FieldValue`].
pub enum FieldValueView {
    Plain(PlainValueView),
    Variant { case: usize, fields: Seq<PlainValueView> },
}

impl View for FieldValue {
    type V = FieldValueView;

    open spec fn view(&self) -> FieldValueView {
        match self {
            FieldValue::Plain(value) => FieldValueView::Plain(value@),
            FieldValue::Variant { case, fields } => FieldValueView::Variant {
                case: *case,
                fields: plain_values_view(fields@),
            },
        }
    }
}

impl Clone for FieldValue {
    fn clone(&self) -> (copy: FieldValue)
        ensures
            copy@ == self@,
    {
        match self {
            FieldValue::Plain(value) => FieldValue::Plain(value.clone()),
            FieldValue::Variant { case, fields } => {
                let mut copy: Vec<PlainValue> = Vec::new();
                let mut i: usize = 0;
                while i < fields.len()
                    invariant
                        i <= fields.len(),
                        plain_values_view(copy@) == plain_values_view(fields@).take(i as int),
                    decreases fields.len() - i,
                {
                    let ghost before = plain_values_view(copy@);
                    let value = fields[i].clone();
                    copy.push(value);
                    assert(plain_values_view(copy@) =~= before.push(
                        plain_values_view(fields@)[i as int],
                    ));
                    i += 1;
                }
                assert(plain_values_view(copy@) =~= plain_values_view(fields@));
                FieldValue::Variant { case: *case, fields: copy }
            },
        }
    }
}

/// The views of a list of field values, in order.
pub open spec fn field_values_view(values: Seq<FieldValue>) -> Seq<FieldValueView> {
    Seq::new(values.len(), |i: int| values[i]@)
}

impl FieldLayoutView {
    /// A choice has one discriminant for each case, no discriminant twice, and
    /// at least the fallback case.
    pub open spec fn wf(self) -> bool {
        match self {
            FieldLayoutView::Plain(plain) => plain.wf(),
            FieldLayoutView::Choice { tags, cases } => {
                &&& 1 <= cases.len() == tags.len()
                &&& all_different(tags)
                &&& forall|c: int| 0 <= c < cases.len() ==> flat_wf(#[trigger] cases[c])
            },
        }
    }

    /// Whether `value` is of the sort that the field takes.
    pub open spec fn admits(self, value: FieldValueView) -> bool {
        match self {
            FieldLayoutView::Plain(plain) => value is Plain && plain.admits(value->Plain_0),
            FieldLayoutView::Choice { tags, cases } => {
                &&& value is Variant
                &&& value->case < cases.len()
                &&& flat_admits(cases[value->case as int], value->fields)
            },
        }
    }

    /// Whether `value` is admitted and every integer in it fits.
    pub open spec fn holds(self, value: FieldValueView) -> bool {
        match self {
            FieldLayoutView::Plain(plain) => value is Plain && plain.holds(value->Plain_0),
            FieldLayoutView::Choice { tags, cases } => {
                &&& value is Variant
                &&& value->case < cases.len()
                &&& flat_holds(cases[value->case as int], value->fields)
            },
        }
    }

    /// The number of bytes that the field occupies when it holds `value`: the
    /// size of the field itself or, for a choice, of the case taken.
    pub open spec fn size_with(self, value: FieldValueView) -> nat {
        match self {
            FieldLayoutView::Plain(plain) => plain.size(),
            FieldLayoutView::Choice { tags, cases } => flat_size(
                cases[value->case as int],
                cases[value->case as int].len() as int,
            ),
        }
    }

    /// The bytes that the field writes for `value`: for a choice, exactly the
    /// bytes of the case that the value holds.
    pub open spec fn bytes_of(self, value: FieldValueView) -> Seq<u8> {
        match self {
            FieldLayoutView::Plain(plain) => plain.bytes_of(value->Plain_0),
            FieldLayoutView::Choice { tags, cases } => flat_bytes(
                cases[value->case as int],
                value->fields,
                cases[value->case as int].len() as int,
            ),
        }
    }

    /// The value that the field reads from `input` at `at`, and where the next
    /// field begins. A choice takes the case whose discriminant is `selector`.
    pub open spec fn parse_at(self, input: Seq<u8>, at: int, selector: Option<u64>) -> Result<
        (FieldValueView, int),
        CodecError,
    > {
        match self {
            FieldLayoutView::Plain(plain) => match plain.parse_at(input, at) {
                Some(value) => Ok((FieldValueView::Plain(value), at + plain.size())),
                None => Err(CodecError::TruncatedInput),
            },
            FieldLayoutView::Choice { tags, cases } => match selector {
                None => Err(CodecError::UnresolvedVariant),
                Some(tag) => match position_from(tags, tag, 0) {
                    None => Err(CodecError::UnresolvedVariant),
                    Some(c) => match flat_parse(cases[c], input, at, cases[c].len() as int) {
                        None => Err(CodecError::TruncatedInput),
                        Some(fields) => Ok(
                            (
                                FieldValueView::Variant { case: c as usize, fields },
                                at + flat_size(cases[c], cases[c].len() as int),
                            ),
                        ),
                    },
                },
            },
        }
    }

    /// The number of bytes that the field occupies in a frame in which its
    /// discriminant is `selector`; nothing if a choice has no discriminant or
    /// one that selects none of its cases.
    pub open spec fn size_for(self, selector: Option<u64>) -> Option<nat> {
        match self {
            FieldLayoutView::Plain(plain) => Some(plain.size()),
            FieldLayoutView::Choice { tags, cases } => match selector {
                None => None,
                Some(tag) => match position_from(tags, tag, 0) {
                    None => None,
                    Some(c) => Some(flat_size(cases[c], cases[c].len() as int)),
                },
            },
        }
    }
}

/// The views of a list of field layouts, in order.
pub open spec fn field_layouts_view(fields: Seq<FieldLayout>) -> Seq<FieldLayoutView> {
    Seq::new(fields.len(), |i: int| fields[i]@)
}

/// The number of choice fields among the first `n`.
pub open spec fn choices_before(fields: Seq<FieldLayoutView>, n: int) -> int
    decreases n,
{
    if n <= 0 {
        0
    } else if fields[n - 1] is Choice {
        choices_before(fields, n - 1) + 1
    } else {
        choices_before(fields, n - 1)
    }
}

/// The discriminant handed in for field `i`: for a choice field, the one at its
/// position among the choice fields, if that many were handed in.
pub open spec fn selector_for(fields: Seq<FieldLayoutView>, selectors: Seq<u64>, i: int) -> Option<
    u64,
> {
    let k = choices_before(fields, i);
    if fields[i] is Choice && 0 <= k < selectors.len() {
        Some(selectors[k])
    } else {
        None
    }
}

/// The bytes that the first `n` fields write, in declaration order.
pub open spec fn emitted(fields: Seq<FieldLayoutView>, values: Seq<FieldValueView>, n: int) -> Seq<
    u8,
>
    decreases n,
{
    if n <= 0 {
        Seq::empty()
    } else {
        emitted(fields, values, n - 1) + fields[n - 1].bytes_of(values[n - 1])
    }
}

/// The number of bytes that the first `n` fields occupy when they hold
/// `values`.
pub open spec fn size_with(fields: Seq<FieldLayoutView>, values: Seq<FieldValueView>, n: int) -> nat
    decreases n,
{
    if n <= 0 {
        0
    } else {
        size_with(fields, values, n - 1) + fields[n - 1].size_with(values[n - 1])
    }
}

/// The values that the first `n` fields read from the start of `input`,
/// strictly in declaration order, and the position that follows them. The first
/// field that cannot be read decides the failure.
pub open spec fn parsed(
    fields: Seq<FieldLayoutView>,
    input: Seq<u8>,
    selectors: Seq<u64>,
    n: int,
) -> Result<(Seq<FieldValueView>, int), CodecError>
    decreases n,
{
    if n <= 0 {
        Ok((Seq::empty(), 0))
    } else {
        match parsed(fields, input, selectors, n - 1) {
            Err(e) => Err(e),
            Ok((lower, at)) => match fields[n - 1].parse_at(
                input,
                at,
                selector_for(fields, selectors, n - 1),
            ) {
                Err(e) => Err(e),
                Ok((value, next)) => Ok((lower.push(value), next)),
            },
        }
    }
}

/// The number of bytes that the first `n` fields occupy in a frame with the
/// given discriminants; nothing if one of them cannot be resolved.
pub open spec fn frame_size(fields: Seq<FieldLayoutView>, selectors: Seq<u64>, n: int) -> Option<
    nat,
>
    decreases n,
{
    if n <= 0 {
        Some(0)
    } else {
        match frame_size(fields, selectors, n - 1) {
            None => None,
            Some(lower) => match fields[n - 1].size_for(selector_for(fields, selectors, n - 1)) {
                None => None,
                Some(size) => Some(lower + size),
            },
        }
    }
}

/// The mathematical content of a [`StructLayout`].
pub struct StructLayoutView {
    pub fields: Seq<FieldLayoutView>,
}

impl StructLayoutView {
    /// Every field of the layout is well formed.
    pub open spec fn wf(self) -> bool {
        forall|i: int| 0 <= i < self.fields.len() ==> (#[trigger] self.fields[i]).wf()
    }

    /// The number of discriminants that the codec is handed.
    pub open spec fn choice_count(self) -> int {
        choices_before(self.fields, self.fields.len() as int)
    }

    /// Whether the layout has no choice field, so that every frame of it has
    /// the same size.
    pub open spec fn fixed(self) -> bool {
        forall|i: int| 0 <= i < self.fields.len() ==> (#[trigger] self.fields[i]) is Plain
    }

    /// Whether `values` holds one admitted value for each field.
    pub open spec fn admits(self, values: Seq<FieldValueView>) -> bool {
        &&& values.len() == self.fields.len()
        &&& forall|i: int| 0 <= i < self.fields.len() ==> (#[trigger] self.fields[i]).admits(values[i])
    }

    /// Whether `values` holds one fitting value for each field.
    pub open spec fn holds(self, values: Seq<FieldValueView>) -> bool {
        &&& values.len() == self.fields.len()
        &&& forall|i: int| 0 <= i < self.fields.len() ==> (#[trigger] self.fields[i]).holds(values[i])
    }

    /// Whether `selectors` holds, for each choice field in order, the
    /// discriminant of the case that the field takes in `values`.
    pub open spec fn selects(self, selectors: Seq<u64>, values: Seq<FieldValueView>) -> bool {
        &&& selectors.len() == self.choice_count()
        &&& forall|i: int|
            0 <= i < self.fields.len() && (#[trigger] self.fields[i]) is Choice ==> selector_for(
                self.fields,
                selectors,
                i,
            ) == Some(self.fields[i]->tags[values[i]->case as int])
    }

    /// The bytes of the frame that holds `values`.
    pub open spec fn encode(self, values: Seq<FieldValueView>) -> Seq<u8> {
        emitted(self.fields, values, self.fields.len() as int)
    }

    /// The number of bytes of the frame that holds `values`.
    pub open spec fn encoded_size(self, values: Seq<FieldValueView>) -> nat {
        size_with(self.fields, values, self.fields.len() as int)
    }

    /// The values of the frame at the start of `input` and the number of bytes
    /// that it occupies, given the discriminants of its choice fields in order.
    pub open spec fn decode(self, input: Seq<u8>, selectors: Seq<u64>) -> Result<
        (Seq<FieldValueView>, int),
        CodecError,
    > {
        parsed(self.fields, input, selectors, self.fields.len() as int)
    }

    /// The number of bytes of a frame with the given discriminants.
    pub open spec fn size_for(self, selectors: Seq<u64>) -> Option<nat> {
        frame_size(self.fields, selectors, self.fields.len() as int)
    }
}

impl Plain {
    /// The number of bytes that the field occupies.
    pub fn width(&self) -> (width: usize)
        ensures
            width == self.size(),
    {
        match self {
            Plain::Int(width) => *width,
            Plain::Bytes(width) => *width,
        }
    }

    /// Appends the bytes of `value` to `out`.
    pub fn write(&self, out: &mut Vec<u8>, value: &PlainValue)
        ensures
            final(out)@ == old(out)@ + self.bytes_of(value@),
    {
        match value {
            PlainValue::Int(x) => {
                put_le(out, *x, self.width());
            },
            PlainValue::Bytes(bytes) => {
                let mut i: usize = 0;
                while i < bytes.len()
                    invariant
                        i <= bytes.len(),
                        out@ == old(out)@ + bytes@.take(i as int),
                    decreases bytes.len() - i,
                {
                    out.push(bytes[i]);
                    i += 1;
                }
            },
        }
    }

    /// Reads the field's value from `input` at `at`; nothing if fewer bytes
    /// remain there than the field occupies.
    pub fn read(&self, input: &[u8], at: usize) -> (value: Option<PlainValue>)
        requires
            self.wf(),
            at <= input.len(),
        ensures
            match value {
                Some(v) => self.parse_at(input@, at as int) == Some(v@),
                None => self.parse_at(input@, at as int) is None,
            },
    {
        let width = self.width();
        if width > input.len() - at {
            return None;
        }
        match self {
            Plain::Int(_) => {
                proof {
                    lemma_le_value_bound(input@.subrange(at as int, at + width));
                    lemma_pow256_values();
                }
                Some(PlainValue::Int(get_le(input, at, width)))
            },
            Plain::Bytes(_) => {
                let mut bytes: Vec<u8> = Vec::new();
                let mut i: usize = 0;
                while i < width
                    invariant
                        i <= width,
                        at + width <= input.len(),
                        bytes@ == input@.subrange(at as int, at + i),
                    decreases width - i,
                {
                    bytes.push(input[at + i]);
                    i += 1;
                }
                Some(PlainValue::Bytes(bytes))
            },
        }
    }
}

/// Appends the bytes of a fixed shape holding `values` to `out`.
pub fn write_flat(shape: &Vec<Plain>, out: &mut Vec<u8>, values: &Vec<PlainValue>)
    requires
        values.len() == shape.len(),
    ensures
        final(out)@ == old(out)@ + flat_bytes(
            shape@,
            plain_values_view(values@),
            shape@.len() as int,
        ),
{
    let mut i: usize = 0;
    while i < shape.len()
        invariant
            i <= shape.len(),
            values.len() == shape.len(),
            out@ == old(out)@ + flat_bytes(shape@, plain_values_view(values@), i as int),
        decreases shape.len() - i,
    {
        shape[i].write(out, &values[i]);
        i += 1;
    }
}

/// Reads the values of a fixed shape from `input`, the first field beginning at
/// `at`, and returns them with the position that follows.
pub fn read_flat(shape: &Vec<Plain>, input: &[u8], at: usize) -> (r: Option<
    (Vec<PlainValue>, usize),
>)
    requires
        flat_wf(shape@),
        at <= input.len(),
    ensures
        match r {
            Some((values, next)) => {
                &&& flat_parse(shape@, input@, at as int, shape@.len() as int) == Some(
                    plain_values_view(values@),
                )
                &&& next == at + flat_size(shape@, shape@.len() as int)
                &&& next <= input.len()
            },
            None => flat_parse(shape@, input@, at as int, shape@.len() as int) is None,
        },
{
    let mut values: Vec<PlainValue> = Vec::new();
    let mut cursor: usize = at;
    let mut i: usize = 0;
    while i < shape.len()
        invariant
            i <= shape.len(),
            flat_wf(shape@),
            at <= cursor <= input.len(),
            cursor == at + flat_size(shape@, i as int),
            flat_parse(shape@, input@, at as int, i as int) == Some(plain_values_view(values@)),
        decreases shape.len() - i,
    {
        match shape[i].read(input, cursor) {
            None => {
                proof {
                    lemma_flat_parse_fails_on(
                        shape@,
                        input@,
                        at as int,
                        i as int,
                        shape@.len() as int,
                    );
                }
                return None;
            },
            Some(value) => {
                values.push(value);
                cursor += shape[i].width();
            },
        }
        i += 1;
    }
    Some((values, cursor))
}

/// The number of bytes that a fixed shape occupies, if it can be counted.
pub fn flat_width(shape: &Vec<Plain>) -> (size: Option<usize>)
    ensures
        match size {
            Some(n) => n == flat_size(shape@, shape@.len() as int),
            None => flat_size(shape@, shape@.len() as int) > usize::MAX,
        },
{
    let mut total: usize = 0;
    let mut i: usize = 0;
    while i < shape.len()
        invariant
            i <= shape.len(),
            total == flat_size(shape@, i as int),
        decreases shape.len() - i,
    {
        let width = shape[i].width();
        if width > usize::MAX - total {
            proof {
                lemma_flat_size_monotonic(shape@, i + 1, shape@.len() as int);
            }
            return None;
        }
        total += width;
        i += 1;
    }
    Some(total)
}

/// Finds the case whose discriminant is `tag`.
pub fn resolve(tags: &Vec<u64>, tag: u64) -> (case: Option<usize>)
    ensures
        match case {
            Some(c) => position_from(tags@, tag, 0) == Some(c as int) && c < tags.len(),
            None => position_from(tags@, tag, 0) is None,
        },
{
    let mut c: usize = 0;
    while c < tags.len()
        invariant
            c <= tags.len(),
            forall|k: int| 0 <= k < c ==> tags@[k] != tag,
        decreases tags.len() - c,
    {
        if tags[c] == tag {
            proof {
                lemma_position_skip(tags@, tag, 0, c as int);
            }
            return Some(c);
        }
        c += 1;
    }
    proof {
        lemma_position_skip(tags@, tag, 0, tags@.len() as int);
    }
    None
}

impl FieldLayout {
    /// Appends the bytes of `value` to `out`.
    pub fn write(&self, out: &mut Vec<u8>, value: &FieldValue)
        requires
            self@.admits(value@),
        ensures
            final(out)@ == old(out)@ + self@.bytes_of(value@),
    {
        match self {
            FieldLayout::Plain(plain) => match value {
                FieldValue::Plain(v) => {
                    plain.write(out, v);
                },
                FieldValue::Variant { .. } => {
                    assert(false);
                },
            },
            FieldLayout::Choice { cases, .. } => match value {
                FieldValue::Plain(_) => {
                    assert(false);
                },
                FieldValue::Variant { case, fields } => {
                    write_flat(&cases[*case], out, fields);
                },
            },
        }
    }

    /// Reads the field's value from `input` at `at` and returns it with the
    /// position that follows. A choice takes the case whose discriminant is
    /// `selector`.
    pub fn read(&self, input: &[u8], at: usize, selector: Option<u64>) -> (r: Result<
        (FieldValue, usize),
        CodecError,
    >)
        requires
            self@.wf(),
            at <= input.len(),
        ensures
            match r {
                Ok((value, next)) => self@.parse_at(input@, at as int, selector) == Ok::<
                    (FieldValueView, int),
                    CodecError,
                >((value@, next as int)) && next <= input.len(),
                Err(e) => self@.parse_at(input@, at as int, selector) == Err::<
                    (FieldValueView, int),
                    CodecError,
                >(e),
            },
    {
        match self {
            FieldLayout::Plain(plain) => match plain.read(input, at) {
                Some(value) => Ok((FieldValue::Plain(value), at + plain.width())),
                None => Err(CodecError::TruncatedInput),
            },
            FieldLayout::Choice { tags, cases } => {
                let tag = match selector {
                    Some(tag) => tag,
                    None => {
                        return Err(CodecError::UnresolvedVariant);
                    },
                };
                let case = match resolve(tags, tag) {
                    Some(case) => case,
                    None => {
                        return Err(CodecError::UnresolvedVariant);
                    },
                };
                match read_flat(&cases[case], input, at) {
                    Some((fields, next)) => Ok((FieldValue::Variant { case, fields }, next)),
                    None => Err(CodecError::TruncatedInput),
                }
            },
        }
    }
}

/// A compiled structure: the layout of each of its fields, in declaration
/// order.
///
/// A value of this type always holds well-formed fields, so the codec needs no
/// further checks of the layout.
#[derive(Debug)]
pub struct StructLayout {
    fields: Vec<FieldLayout>,
}

impl View for StructLayout {
    type V = StructLayoutView;

    closed spec fn view(&self) -> StructLayoutView {
        StructLayoutView { fields: field_layouts_view(self.fields@) }
    }
}

impl StructLayout {
    #[verifier::type_invariant]
    spec fn inv(self) -> bool {
        self@.wf()
    }

    /// Makes a layout of fields that are known to be well formed.
    pub(crate) fn from_parts(fields: Vec<FieldLayout>) -> (layout: StructLayout)
        requires
            (StructLayoutView { fields: field_layouts_view(fields@) }).wf(),
        ensures
            layout@ == (StructLayoutView { fields: field_layouts_view(fields@) }),
    {
        StructLayout { fields }
    }

    /// The number of fields.
    pub fn field_count(&self) -> (n: usize)
        ensures
            n == self@.fields.len(),
            self@.wf(),
    {
        proof {
            use_type_invariant(self);
        }
        self.fields.len()
    }

    /// The layout of field `i`.
    pub fn field(&self, i: usize) -> (field: &FieldLayout)
        requires
            i < self@.fields.len(),
        ensures
            field@ == self@.fields[i as int],
            field@.wf(),
    {
        proof {
            use_type_invariant(self);
        }
        &self.fields[i]
    }

    /// The bytes of the frame that holds `values`: the bytes of each field in
    /// declaration order, a choice field giving exactly the bytes of the case
    /// it holds.
    pub fn encode(&self, values: &Vec<FieldValue>) -> (bytes: Vec<u8>)
        requires
            self@.admits(field_values_view(values@)),
        ensures
            bytes@ == self@.encode(field_values_view(values@)),
            bytes@.len() == self@.encoded_size(field_values_view(values@)),
    {
        let mut bytes: Vec<u8> = Vec::new();
        let mut i: usize = 0;
        while i < self.fields.len()
            invariant
                i <= self.fields.len(),
                self@.admits(field_values_view(values@)),
                bytes@ == emitted(self@.fields, field_values_view(values@), i as int),
            decreases self.fields.len() - i,
        {
            assert(self@.fields[i as int].admits(field_values_view(values@)[i as int]));
            self.fields[i].write(&mut bytes, &values[i]);
            i += 1;
        }
        proof {
            self@.lemma_emitted_len(field_values_view(values@), self@.fields.len() as int);
        }
        bytes
    }

    /// The discriminants that select, for each choice field in order, the case
    /// that the field takes in `values`: what the frame's selectors have to
    /// hold for `values` to be read back.
    pub fn selectors_for(&self, values: &Vec<FieldValue>) -> (selectors: Vec<u64>)
        requires
            self@.admits(field_values_view(values@)),
        ensures
            self@.selects(selectors@, field_values_view(values@)),
    {
        proof {
            use_type_invariant(self);
        }
        let mut selectors: Vec<u64> = Vec::new();
        let mut i: usize = 0;
        while i < self.fields.len()
            invariant
                i <= self.fields.len(),
                self@.wf(),
                self@.admits(field_values_view(values@)),
                selectors@.len() == choices_before(self@.fields, i as int),
                forall|j: int|
                    0 <= j < i && (#[trigger] self@.fields[j]) is Choice ==> {
                        &&& 0 <= choices_before(self@.fields, j) < selectors@.len()
                        &&& selectors@[choices_before(self@.fields, j)]
                            == self@.fields[j]->tags[field_values_view(values@)[j]->case as int]
                    },
            decreases self.fields.len() - i,
        {
            assert(self@.fields[i as int].admits(field_values_view(values@)[i as int]));
            match &self.fields[i] {
                FieldLayout::Plain(_) => {},
                FieldLayout::Choice { tags, .. } => match &values[i] {
                    FieldValue::Plain(_) => {},
                    FieldValue::Variant { case, .. } => {
                        selectors.push(tags[*case]);
                    },
                },
            }
            assert forall|j: int| 0 <= j < i + 1 && (#[trigger] self@.fields[j]) is Choice implies {
                &&& 0 <= choices_before(self@.fields, j) < selectors@.len()
                &&& selectors@[choices_before(self@.fields, j)]
                    == self@.fields[j]->tags[field_values_view(values@)[j]->case as int]
            } by {
                if j == i {
                    lemma_choices_monotonic(self@.fields, j, j);
                }
            }
            i += 1;
        }
        selectors
    }

    /// Reads the frame at the start of `input`, field by field in declaration
    /// order, and returns its values with the number of bytes that it occupies.
    /// `selectors` holds the discriminant of each choice field, in order.
    ///
    /// Fails with `TruncatedInput` where the input ends before a field does,
    /// and with `UnresolvedVariant` where a choice field has no discriminant or
    /// one that selects none of its cases; the first field that cannot be read
    /// decides. So a frame whose discriminants each select a case is read
    /// exactly if the input holds all the bytes of the frame so selected, and
    /// fails with `TruncatedInput` otherwise.
    pub fn decode(&self, input: &[u8], selectors: &[u64]) -> (r: Result<
        (Vec<FieldValue>, usize),
        CodecError,
    >)
        ensures
            match r {
                Ok((values, used)) => self@.decode(input@, selectors@) == Ok::<
                    (Seq<FieldValueView>, int),
                    CodecError,
                >((field_values_view(values@), used as int)),
                Err(e) => self@.decode(input@, selectors@) == Err::<
                    (Seq<FieldValueView>, int),
                    CodecError,
                >(e),
            },
            r is Ok <==> self@.size_for(selectors@) is Some && self@.size_for(selectors@)->Some_0
                <= input@.len(),
            r is Ok ==> r->Ok_0.1 == self@.size_for(selectors@)->Some_0,
            self@.size_for(selectors@) is Some && self@.size_for(selectors@)->Some_0 > input@.len()
                ==> r == Err::<(Vec<FieldValue>, usize), CodecError>(CodecError::TruncatedInput),
    {
        proof {
            use_type_invariant(self);
        }
        let mut values: Vec<FieldValue> = Vec::new();
        let mut cursor: usize = 0;
        let mut k: usize = 0;
        let mut i: usize = 0;
        assert(field_values_view(values@) =~= Seq::empty());
        while i < self.fields.len()
            invariant
                i <= self.fields.len(),
                self@.wf(),
                cursor <= input.len(),
                k == choices_before(self@.fields, i as int),
                parsed(self@.fields, input@, selectors@, i as int) == Ok::<
                    (Seq<FieldValueView>, int),
                    CodecError,
                >((field_values_view(values@), cursor as int)),
            decreases self.fields.len() - i,
        {
            proof {
                lemma_choices_monotonic(self@.fields, i as int, self@.fields.len() as int);
            }
            let field = &self.fields[i];
            let selector = match field {
                FieldLayout::Plain(_) => None,
                FieldLayout::Choice { .. } => {
                    if k < selectors.len() {
                        let tag = selectors[k];
                        k += 1;
                        Some(tag)
                    } else {
                        None
                    }
                },
            };
            let ghost before = field_values_view(values@);
            match field.read(input, cursor, selector) {
                Err(e) => {
                    proof {
                        lemma_parsed_fails_on(
                            self@.fields,
                            input@,
                            selectors@,
                            i as int,
                            self@.fields.len() as int,
                        );
                        self@.lemma_decode_total(input@, selectors@);
                    }
                    return Err(e);
                },
                Ok((value, next)) => {
                    let ghost added = value@;
                    values.push(value);
                    assert(field_values_view(values@) =~= before.push(added));
                    cursor = next;
                },
            }
            i += 1;
        }
        proof {
            self@.lemma_decode_total(input@, selectors@);
        }
        Ok((values, cursor))
    }

    /// The number of bytes of a frame whose choice fields have the given
    /// discriminants, in order; nothing if a choice field has no discriminant
    /// or one that selects none of its cases, or if the size cannot be counted.
    pub fn size_for(&self, selectors: &[u64]) -> (size: Option<usize>)
        ensures
            match size {
                Some(n) => self@.size_for(selectors@) == Some(n as nat),
                None => self@.size_for(selectors@) is None || self@.size_for(selectors@)->Some_0
                    > usize::MAX,
            },
    {
        proof {
            use_type_invariant(self);
        }
        let mut total: usize = 0;
        let mut k: usize = 0;
        let mut i: usize = 0;
        while i < self.fields.len()
            invariant
                i <= self.fields.len(),
                self@.wf(),
                k == choices_before(self@.fields, i as int),
                frame_size(self@.fields, selectors@, i as int) == Some(total as nat),
            decreases self.fields.len() - i,
        {
            proof {
                lemma_choices_monotonic(self@.fields, i as int, self@.fields.len() as int);
                lemma_frame_size_monotonic(
                    self@.fields,
                    selectors@,
                    i + 1,
                    self@.fields.len() as int,
                );
            }
            let size = match &self.fields[i] {
                FieldLayout::Plain(plain) => plain.width(),
                FieldLayout::Choice { tags, cases } => {
                    if k >= selectors.len() {
                        return None;
                    }
                    let case = match resolve(tags, selectors[k]) {
                        Some(case) => case,
                        None => {
                            return None;
                        },
                    };
                    k += 1;
                    match flat_width(&cases[case]) {
                        Some(size) => size,
                        None => {
                            return None;
                        },
                    }
                },
            };
            if size > usize::MAX - total {
                return None;
            }
            total += size;
            i += 1;
        }
        Some(total)
    }
}

} // verus!
