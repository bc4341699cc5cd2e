//! Byte structures: the schema of a frame as a run of byte-granular fields,
//! some of which take one of several shapes.
//!
//! A field of fixed shape is an integer, a run of raw bytes or an embedded bit
//! container. An alternative field names a variant group; which variant of the
//! group it holds in a given frame is decided by a discriminant that is not
//! part of the field's own bytes.
use vstd::prelude::*;
use crate::error::SchemaError;
use crate::error::SchemaErrorKind;
use crate::error::SchemaErrorView;
use crate::generate::bitfield::same_text;
use crate::generate::bitlayout::all_different;
use crate::generate::structlayout::FieldLayout;
use crate::generate::structlayout::FieldLayoutView;
use crate::generate::structlayout::Plain;
use crate::generate::structlayout::StructLayout;
use crate::generate::structlayout::StructLayoutView;
use crate::generate::structlayout::cases_view;
use crate::generate::structlayout::field_layouts_view;
use crate::generate::structlayout::flat_wf;
use crate::laws::structure::lemma_case_defect_skip;
use crate::laws::structure::lemma_field_defect_skip;
use crate::laws::structure::lemma_flat_defect_skip;
use crate::laws::structure::lemma_group_named_skip;

verus! {

/// One field of a structure.
#[derive(Debug)]
pub enum StructField {
    /// An unsigned integer of 1, 2, 4 or 8 bytes, least significant first.
    FixedInt { name: String, width: usize },
    /// A run of bytes that the codec passes through as they are.
    RawBytes { name: String, width: usize },
    /// The bit container of type `container`, in 1, 2, 4 or 8 bytes, least
    /// significant first.
    EmbeddedBitfield { name: String, container: String, width: usize },
    /// One of the variants of the group called `group`.
    Alternative { name: String, group: String },
}

/// The mathematical content of a [`StructField`].
pub enum StructFieldView {
    FixedInt { name: Seq<char>, width: usize },
    RawBytes { name: Seq<char>, width: usize },
    EmbeddedBitfield { name: Seq<char>, container: Seq<char>, width: usize },
    Alternative { name: Seq<char>, group: Seq<char> },
}

impl View for StructField {
    type V = StructFieldView;

    open spec fn view(&self) -> StructFieldView {
        match self {
            StructField::FixedInt { name, width } => StructFieldView::FixedInt {
                name: name@,
                width: *width,
            },
            StructField::RawBytes { name, width } => StructFieldView::RawBytes {
                name: name@,
                width: *width,
            },
            StructField::EmbeddedBitfield {
                name,
                container,
                width,
            } => StructFieldView::EmbeddedBitfield {
                name: name@,
                container: container@,
                width: *width,
            },
            StructField::Alternative { name, group } => StructFieldView::Alternative {
                name: name@,
                group: group@,
            },
        }
    }
}

impl StructFieldView {
    /// The field's name.
    pub open spec fn name(self) -> Seq<char> {
        match self {
            StructFieldView::FixedInt { name, .. } => name,
            StructFieldView::RawBytes { name, .. } => name,
            StructFieldView::EmbeddedBitfield { name, .. } => name,
            StructFieldView::Alternative { name, .. } => name,
        }
    }
}

impl Clone for StructField {
    fn clone(&self) -> (copy: StructField)
        ensures
            copy@ == self@,
    {
        match self {
            StructField::FixedInt { name, width } => StructField::FixedInt {
                name: name.clone(),
                width: *width,
            },
            StructField::RawBytes { name, width } => StructField::RawBytes {
                name: name.clone(),
                width: *width,
            },
            StructField::EmbeddedBitfield { name, container, width } => {
                StructField::EmbeddedBitfield {
                    name: name.clone(),
                    container: container.clone(),
                    width: *width,
                }
            },
            StructField::Alternative { name, group } => StructField::Alternative {
                name: name.clone(),
                group: group.clone(),
            },
        }
    }
}

impl StructField {
    /// The field's name.
    pub fn name(&self) -> (name: &String)
        ensures
            name@ == self@.name(),
    {
        match self {
            StructField::FixedInt { name, .. } => name,
            StructField::RawBytes { name, .. } => name,
            StructField::EmbeddedBitfield { name, .. } => name,
            StructField::Alternative { name, .. } => name,
        }
    }
}

/// The views of a list of fields, in order.
pub open spec fn fields_view(fields: Seq<StructField>) -> Seq<StructFieldView> {
    Seq::new(fields.len(), |i: int| fields[i]@)
}

/// The schema of a structure. One without fields is the empty shape, which
/// occupies no bytes.
#[derive(Debug)]
pub struct Structure {
    pub name: String,
    pub fields: Vec<StructField>,
}

/// The mathematical content of a [`Structure`].
pub struct StructureView {
    pub name: Seq<char>,
    pub fields: Seq<StructFieldView>,
}

impl View for Structure {
    type V = StructureView;

    open spec fn view(&self) -> StructureView {
        StructureView { name: self.name@, fields: fields_view(self.fields@) }
    }
}

impl StructureView {
    /// The structure called `name` that has no fields.
    pub open spec fn empty(name: Seq<char>) -> StructureView {
        StructureView { name, fields: Seq::empty() }
    }

    /// The structure with one more field declared after those it has.
    pub open spec fn with_field(self, field: StructFieldView) -> StructureView {
        StructureView { fields: self.fields.push(field), ..self }
    }

    /// The structure with an integer field of `width` bytes declared last.
    pub open spec fn fixed_int(self, name: Seq<char>, width: usize) -> StructureView {
        self.with_field(StructFieldView::FixedInt { name, width })
    }

    /// The structure with a field of `width` raw bytes declared last.
    pub open spec fn raw_bytes(self, name: Seq<char>, width: usize) -> StructureView {
        self.with_field(StructFieldView::RawBytes { name, width })
    }

    /// The structure with an embedded bit container declared last.
    pub open spec fn bitfield(self, name: Seq<char>, container: Seq<char>, width: usize) -> StructureView {
        self.with_field(StructFieldView::EmbeddedBitfield { name, container, width })
    }

    /// The structure with an alternative field declared last.
    pub open spec fn alternative(self, name: Seq<char>, group: Seq<char>) -> StructureView {
        self.with_field(StructFieldView::Alternative { name, group })
    }

    /// The structure called `name` whose only field, `field`, is `width` raw
    /// bytes.
    pub open spec fn simple(name: Seq<char>, field: Seq<char>, width: usize) -> StructureView {
        StructureView::empty(name).raw_bytes(field, width)
    }
}

impl Clone for Structure {
    fn clone(&self) -> (copy: Structure)
        ensures
            copy@ == self@,
    {
        let mut fields: Vec<StructField> = Vec::new();
        let mut i: usize = 0;
        while i < self.fields.len()
            invariant
                i <= self.fields.len(),
                fields_view(fields@) == self@.fields.take(i as int),
            decreases self.fields.len() - i,
        {
            let ghost before = fields_view(fields@);
            let field = self.fields[i].clone();
            fields.push(field);
            assert(fields_view(fields@) =~= before.push(self@.fields[i as int]));
            i += 1;
        }
        assert(fields_view(fields@) =~= self@.fields);
        Structure { name: self.name.clone(), fields }
    }
}

impl Structure {
    /// A structure with no fields yet.
    pub fn new(name: &str) -> (s: Structure)
        ensures
            s@ == StructureView::empty(name@),
    {
        let s = Structure { name: name.to_owned(), fields: Vec::new() };
        assert(s@.fields =~= Seq::empty());
        s
    }

    /// Declares a one-byte integer field.
    pub fn add_u8_field(self, name: &str) -> (s: Structure)
        ensures
            s@ == self@.fixed_int(name@, 1),
    {
        self.push_field(StructField::FixedInt { name: name.to_owned(), width: 1 })
    }

    /// Declares a two-byte integer field.
    pub fn add_u16_field(self, name: &str) -> (s: Structure)
        ensures
            s@ == self@.fixed_int(name@, 2),
    {
        self.push_field(StructField::FixedInt { name: name.to_owned(), width: 2 })
    }

    /// Declares a four-byte integer field.
    pub fn add_u32_field(self, name: &str) -> (s: Structure)
        ensures
            s@ == self@.fixed_int(name@, 4),
    {
        self.push_field(StructField::FixedInt { name: name.to_owned(), width: 4 })
    }

    /// Declares an eight-byte integer field.
    pub fn add_u64_field(self, name: &str) -> (s: Structure)
        ensures
            s@ == self@.fixed_int(name@, 8),
    {
        self.push_field(StructField::FixedInt { name: name.to_owned(), width: 8 })
    }

    /// Declares a field of `width` raw bytes.
    pub fn add_bytes_field(self, name: &str, width: usize) -> (s: Structure)
        ensures
            s@ == self@.raw_bytes(name@, width),
    {
        self.push_field(StructField::RawBytes { name: name.to_owned(), width })
    }

    /// Declares a field that embeds the bit container of type `container` in
    /// `width` bytes.
    pub fn add_bitfield(self, name: &str, container: &str, width: usize) -> (s: Structure)
        ensures
            s@ == self@.bitfield(name@, container@, width),
    {
        self.push_field(
            StructField::EmbeddedBitfield {
                name: name.to_owned(),
                container: container.to_owned(),
                width,
            },
        )
    }

    /// Declares a field that holds one of the variants of `group`.
    pub fn add_alt_field(self, name: &str, group: &AlternativeOptions) -> (s: Structure)
        ensures
            s@ == self@.alternative(name@, group@.name),
    {
        self.push_field(
            StructField::Alternative { name: name.to_owned(), group: group.name.clone() },
        )
    }

    fn push_field(self, field: StructField) -> (s: Structure)
        ensures
            s@ == self@.with_field(field@),
    {
        let ghost before = self@;
        let ghost added = field@;
        let mut s = self;
        s.fields.push(field);
        assert(s@.fields =~= before.fields.push(added));
        s
    }
}

/// What can stand as a variant of a group: anything that describes a structure.
pub trait Shape {
    /// The structure that this value describes.
    spec fn shape(&self) -> StructureView;

    /// Builds the structure that this value describes.
    fn to_structure(&self) -> (s: Structure)
        ensures
            s@ == self.shape(),
    ;
}

impl Shape for Structure {
    open spec fn shape(&self) -> StructureView {
        self@
    }

    fn to_structure(&self) -> (s: Structure) {
        self.clone()
    }
}

/// A structure of a single field of raw bytes.
#[derive(Debug)]
pub struct SimpleStructure {
    pub name: String,
    pub field: String,
    pub width: usize,
}

impl SimpleStructure {
    /// The structure called `name` whose only field, `field`, is `width` raw
    /// bytes.
    pub fn new(name: &str, field: &str, width: usize) -> (s: SimpleStructure)
        ensures
            s.shape() == StructureView::simple(name@, field@, width),
    {
        SimpleStructure { name: name.to_owned(), field: field.to_owned(), width }
    }
}

impl Shape for SimpleStructure {
    open spec fn shape(&self) -> StructureView {
        StructureView::simple(self.name@, self.field@, self.width)
    }

    fn to_structure(&self) -> (s: Structure) {
        let mut fields: Vec<StructField> = Vec::new();
        fields.push(StructField::RawBytes { name: self.field.clone(), width: self.width });
        let s = Structure { name: self.name.clone(), fields };
        assert(s@.fields =~= self.shape().fields);
        s
    }
}

/// The views of a list of structures, in order.
pub open spec fn structures_view(structures: Seq<Structure>) -> Seq<StructureView> {
    Seq::new(structures.len(), |i: int| structures[i]@)
}

/// A variant group: the shapes that one alternative field can take.
///
/// The fallback is the shape taken when the discriminant says that the field is
/// absent; the variants follow in the order of their insertion. Unless a
/// selector domain is bound, the discriminant of the fallback is 0 and that of
/// the `k`-th inserted variant is `k`.
#[derive(Debug)]
pub struct AlternativeOptions {
    pub name: String,
    pub fallback: Structure,
    pub variants: Vec<Structure>,
    pub selector: Option<Vec<u64>>,
}

/// The mathematical content of an [`AlternativeOptions`].
pub struct GroupView {
    pub name: Seq<char>,
    pub fallback: StructureView,
    pub variants: Seq<StructureView>,
    pub selector: Option<Seq<u64>>,
}

impl View for AlternativeOptions {
    type V = GroupView;

    open spec fn view(&self) -> GroupView {
        GroupView {
            name: self.name@,
            fallback: self.fallback@,
            variants: structures_view(self.variants@),
            selector: match self.selector {
                Some(values) => Some(values@),
                None => None,
            },
        }
    }
}

impl GroupView {
    /// The group with the given fallback and no other variant.
    pub open spec fn new(name: Seq<char>, fallback: StructureView) -> GroupView {
        GroupView { name, fallback, variants: Seq::empty(), selector: None }
    }

    /// The group with one more variant inserted after those it has.
    pub open spec fn with_variant(self, variant: StructureView) -> GroupView {
        GroupView { variants: self.variants.push(variant), ..self }
    }

    /// The shapes of the group, the fallback first.
    pub open spec fn cases(self) -> Seq<StructureView> {
        seq![self.fallback] + self.variants
    }
}

impl AlternativeOptions {
    /// A group with the given fallback and no other variant yet.
    pub fn new(name: &str, fallback: &Structure) -> (g: AlternativeOptions)
        ensures
            g@ == GroupView::new(name@, fallback@),
    {
        let g = AlternativeOptions {
            name: name.to_owned(),
            fallback: fallback.clone(),
            variants: Vec::new(),
            selector: None,
        };
        assert(g@.variants =~= Seq::empty());
        g
    }

    /// Inserts `variant` as the next shape of the group.
    pub fn insert_type<T: Shape>(self, variant: &T) -> (g: AlternativeOptions)
        ensures
            g@ == self@.with_variant(variant.shape()),
    {
        let ghost before = self@;
        let mut g = self;
        g.variants.push(variant.to_structure());
        assert(g@.variants =~= before.variants.push(variant.shape()));
        g
    }

    /// Binds the group to the domain of the field that selects among its
    /// shapes: the integers that the selector can hold, in the order of their
    /// declaration.
    pub fn bind_selector(self, domain: Vec<u64>) -> (g: AlternativeOptions)
        ensures
            g@ == (GroupView { selector: Some(domain@), ..self@ }),
    {
        let mut g = self;
        g.selector = Some(domain);
        g
    }
}

impl Clone for AlternativeOptions {
    fn clone(&self) -> (copy: AlternativeOptions)
        ensures
            copy@ == self@,
    {
        let mut variants: Vec<Structure> = Vec::new();
        let mut i: usize = 0;
        while i < self.variants.len()
            invariant
                i <= self.variants.len(),
                structures_view(variants@) == self@.variants.take(i as int),
            decreases self.variants.len() - i,
        {
            let ghost before = structures_view(variants@);
            let variant = self.variants[i].clone();
            variants.push(variant);
            assert(structures_view(variants@) =~= before.push(self@.variants[i as int]));
            i += 1;
        }
        assert(structures_view(variants@) =~= self@.variants);
        let selector = match &self.selector {
            Some(values) => Some(values.clone()),
            None => None,
        };
        AlternativeOptions {
            name: self.name.clone(),
            fallback: self.fallback.clone(),
            variants,
            selector,
        }
    }
}

/// The views of a list of groups, in order.
pub open spec fn groups_view(groups: Seq<AlternativeOptions>) -> Seq<GroupView> {
    Seq::new(groups.len(), |i: int| groups[i]@)
}

/// The variant groups that one structure refers to, gathered so that they can
/// be compiled and emitted together. The groups do not constrain one another.
#[derive(Debug)]
pub struct Alternatives {
    pub groups: Vec<AlternativeOptions>,
}

impl View for Alternatives {
    type V = Seq<GroupView>;

    open spec fn view(&self) -> Seq<GroupView> {
        groups_view(self.groups@)
    }
}

impl Alternatives {
    /// A collection with no group yet.
    pub fn new() -> (a: Alternatives)
        ensures
            a@ == Seq::<GroupView>::empty(),
    {
        Alternatives { groups: Vec::new() }
    }

    /// Adds `group` to the collection.
    pub fn insert(self, group: &AlternativeOptions) -> (a: Alternatives)
        ensures
            a@ == self@.push(group@),
    {
        let mut a = self;
        a.groups.push(group.clone());
        a
    }
}

/// Whether field `i` is named as an earlier field is.
pub open spec fn field_name_repeats(fields: Seq<StructFieldView>, i: int) -> bool {
    exists|j: int| 0 <= j < i && (#[trigger] fields[j]).name() == fields[i].name()
}

/// What is wrong with an integer field of `width` bytes, if anything.
pub open spec fn width_defect(width: usize) -> Option<SchemaErrorKind> {
    if width > 8 {
        Some(SchemaErrorKind::WidthOverflow)
    } else if !(width == 1 || width == 2 || width == 4 || width == 8) {
        Some(SchemaErrorKind::WidthMismatch)
    } else {
        None
    }
}

/// What is wrong with field `i` whatever groups there are: a repeated name or,
/// failing that, an integer width that no integer has.
pub open spec fn own_defect(fields: Seq<StructFieldView>, i: int) -> Option<SchemaErrorKind> {
    if field_name_repeats(fields, i) {
        Some(SchemaErrorKind::DuplicateFieldName)
    } else {
        match fields[i] {
            StructFieldView::FixedInt { width, .. } => width_defect(width),
            StructFieldView::EmbeddedBitfield { width, .. } => width_defect(width),
            _ => None,
        }
    }
}

/// What is wrong with field `i` of a structure that has to be of fixed shape:
/// besides its own defects, an alternative field has no group to take its
/// shapes from.
pub open spec fn flat_field_defect(fields: Seq<StructFieldView>, i: int) -> Option<
    SchemaErrorKind,
> {
    if own_defect(fields, i) is Some {
        own_defect(fields, i)
    } else if fields[i] is Alternative {
        Some(SchemaErrorKind::UnresolvedVariant)
    } else {
        None
    }
}

/// The defect of the first defective field at or after `from` of a structure
/// that has to be of fixed shape.
pub open spec fn first_flat_defect(fields: Seq<StructFieldView>, from: int) -> Option<
    SchemaErrorView,
>
    decreases fields.len() - from,
{
    if from < 0 || from >= fields.len() {
        None
    } else if let Some(kind) = flat_field_defect(fields, from) {
        Some(SchemaErrorView { kind, subject: fields[from].name() })
    } else {
        first_flat_defect(fields, from + 1)
    }
}

impl StructFieldView {
    /// The layout of a field of fixed shape.
    pub open spec fn plain(self) -> Plain {
        match self {
            StructFieldView::FixedInt { width, .. } => Plain::Int(width),
            StructFieldView::EmbeddedBitfield { width, .. } => Plain::Int(width),
            StructFieldView::RawBytes { width, .. } => Plain::Bytes(width),
            StructFieldView::Alternative { .. } => Plain::Bytes(0),
        }
    }
}

impl StructureView {
    /// No two fields share a name.
    pub open spec fn names_distinct(self) -> bool {
        forall|i: int, j: int|
            0 <= i < j < self.fields.len() ==> (#[trigger] self.fields[i]).name()
                != (#[trigger] self.fields[j]).name()
    }

    /// Every integer field and every embedded container is 1, 2, 4 or 8 bytes
    /// wide.
    pub open spec fn widths_sound(self) -> bool {
        forall|i: int|
            0 <= i < self.fields.len() ==> match #[trigger] self.fields[i] {
                StructFieldView::FixedInt { width, .. } => width_defect(width) is None,
                StructFieldView::EmbeddedBitfield { width, .. } => width_defect(width) is None,
                _ => true,
            }
    }

    /// The structure is a sound one of fixed shape: its names are distinct, its
    /// integers have the width of an integer, and none of its fields is an
    /// alternative field.
    pub open spec fn flat_valid(self) -> bool {
        &&& self.names_distinct()
        &&& self.widths_sound()
        &&& forall|i: int| 0 <= i < self.fields.len() ==> !((#[trigger] self.fields[i]) is Alternative)
    }

    /// The defect that keeps the structure from being a fixed shape, if it has
    /// one.
    pub open spec fn flat_defect(self) -> Option<SchemaErrorView> {
        first_flat_defect(self.fields, 0)
    }

    /// The layout of the structure as a fixed shape.
    pub open spec fn flat_layout(self) -> Seq<Plain> {
        Seq::new(self.fields.len(), |i: int| self.fields[i].plain())
    }
}

/// Whether case `c` is named as an earlier case is.
pub open spec fn case_name_repeats(cases: Seq<StructureView>, c: int) -> bool {
    exists|b: int| 0 <= b < c && (#[trigger] cases[b]).name == cases[c].name
}

/// What is wrong with case `c` of a group taken with the cases before it: a
/// repeated name or, failing that, what keeps it from being a fixed shape.
pub open spec fn case_defect(cases: Seq<StructureView>, c: int) -> Option<SchemaErrorView> {
    if case_name_repeats(cases, c) {
        Some(
            SchemaErrorView {
                kind: SchemaErrorKind::DuplicateFieldName,
                subject: cases[c].name,
            },
        )
    } else {
        cases[c].flat_defect()
    }
}

/// The defect of the first defective case at or after `from`.
pub open spec fn first_case_defect(cases: Seq<StructureView>, from: int) -> Option<
    SchemaErrorView,
>
    decreases cases.len() - from,
{
    if from < 0 || from >= cases.len() {
        None
    } else if case_defect(cases, from) is Some {
        case_defect(cases, from)
    } else {
        first_case_defect(cases, from + 1)
    }
}

/// The integers other than zero among the first `n` of `domain`, in order.
pub open spec fn others(domain: Seq<u64>, n: int) -> Seq<u64>
    decreases n,
{
    if n <= 0 {
        Seq::empty()
    } else if domain[n - 1] == 0 {
        others(domain, n - 1)
    } else {
        others(domain, n - 1).push(domain[n - 1])
    }
}

impl GroupView {
    /// No two shapes of the group share a name.
    pub open spec fn cases_distinct(self) -> bool {
        forall|b: int, c: int|
            0 <= b < c < self.cases().len() ==> (#[trigger] self.cases()[b]).name
                != (#[trigger] self.cases()[c]).name
    }

    /// The group is sound: its shapes are pairwise distinct, each of them is a
    /// sound structure of fixed shape, and its selector covers them.
    pub open spec fn valid(self) -> bool {
        &&& self.cases_distinct()
        &&& forall|c: int| 0 <= c < self.cases().len() ==> (#[trigger] self.cases()[c]).flat_valid()
        &&& self.covered()
    }

    /// Whether the group's shapes and the integers that its selector can hold
    /// match one for one. A bound selector domain has to hold zero, which
    /// selects the fallback, no integer twice, and as many other integers as
    /// there are inserted variants. Without a bound domain the shapes are
    /// counted from zero, and there are integers enough.
    pub open spec fn covered(self) -> bool {
        match self.selector {
            None => self.variants.len() <= usize::MAX,
            Some(domain) => {
                &&& all_different(domain)
                &&& domain.contains(0)
                &&& domain.len() == 1 + self.variants.len()
            },
        }
    }

    /// The discriminant of each case, the fallback's first. With a bound domain
    /// the fallback's is zero and the `k`-th inserted variant has the `k`-th of
    /// the domain's other integers; without one, case `c` has the discriminant
    /// `c`.
    pub open spec fn tags(self) -> Seq<u64> {
        match self.selector {
            None => Seq::new(1 + self.variants.len(), |c: int| c as u64),
            Some(domain) => seq![0u64] + others(domain, domain.len() as int),
        }
    }

    /// The defect that compilation reports, if the group has one: that of its
    /// first defective case or, if its cases are sound, that its selector does
    /// not cover them.
    pub open spec fn defect(self) -> Option<SchemaErrorView> {
        if first_case_defect(self.cases(), 0) is Some {
            first_case_defect(self.cases(), 0)
        } else if !self.covered() {
            Some(SchemaErrorView { kind: SchemaErrorKind::UnresolvedVariant, subject: self.name })
        } else {
            None
        }
    }

    /// The layout that a sound group compiles to: a closed choice with one case
    /// for the fallback and one for each inserted variant.
    pub open spec fn layout(self) -> FieldLayoutView {
        FieldLayoutView::Choice {
            tags: self.tags(),
            cases: Seq::new(self.cases().len(), |c: int| self.cases()[c].flat_layout()),
        }
    }
}

/// The position of the first group called `name` at or after `from`.
pub open spec fn group_named(groups: Seq<GroupView>, name: Seq<char>, from: int) -> Option<int>
    decreases groups.len() - from,
{
    if from < 0 || from >= groups.len() {
        None
    } else if groups[from].name == name {
        Some(from)
    } else {
        group_named(groups, name, from + 1)
    }
}

/// What is wrong with field `i` of a structure whose alternative fields take
/// their shapes from `groups`: its own defects or, for an alternative field,
/// that no group has the name it refers to, or the defect of the group that
/// has.
pub open spec fn field_defect(fields: Seq<StructFieldView>, i: int, groups: Seq<GroupView>) -> Option<
    SchemaErrorView,
> {
    if let Some(kind) = own_defect(fields, i) {
        Some(SchemaErrorView { kind, subject: fields[i].name() })
    } else if fields[i] is Alternative {
        match group_named(groups, fields[i]->group, 0) {
            None => Some(
                SchemaErrorView {
                    kind: SchemaErrorKind::UnresolvedVariant,
                    subject: fields[i].name(),
                },
            ),
            Some(g) => groups[g].defect(),
        }
    } else {
        None
    }
}

/// The defect of the first defective field at or after `from`.
pub open spec fn first_field_defect(
    fields: Seq<StructFieldView>,
    groups: Seq<GroupView>,
    from: int,
) -> Option<SchemaErrorView>
    decreases fields.len() - from,
{
    if from < 0 || from >= fields.len() {
        None
    } else if field_defect(fields, from, groups) is Some {
        field_defect(fields, from, groups)
    } else {
        first_field_defect(fields, groups, from + 1)
    }
}

impl StructureView {
    /// The defect that compilation against `groups` reports, if the structure
    /// has one. Fields are examined in declaration order and the first
    /// defective one decides.
    pub open spec fn defect(self, groups: Seq<GroupView>) -> Option<SchemaErrorView> {
        first_field_defect(self.fields, groups, 0)
    }

    /// The layout of field `i`.
    pub open spec fn field_layout(self, groups: Seq<GroupView>, i: int) -> FieldLayoutView {
        match self.fields[i] {
            StructFieldView::Alternative { group, .. } => match group_named(groups, group, 0) {
                Some(g) => groups[g].layout(),
                None => FieldLayoutView::Plain(Plain::Bytes(0)),
            },
            field => FieldLayoutView::Plain(field.plain()),
        }
    }

    /// The layout that a sound structure compiles to.
    pub open spec fn layout(self, groups: Seq<GroupView>) -> StructLayoutView {
        StructLayoutView {
            fields: Seq::new(self.fields.len(), |i: int| self.field_layout(groups, i)),
        }
    }

    /// The structure is sound with respect to `groups`: its names are distinct,
    /// its integers have the width of an integer, and each of its alternative
    /// fields names a group that is there and is sound.
    pub open spec fn valid(self, groups: Seq<GroupView>) -> bool {
        &&& self.names_distinct()
        &&& self.widths_sound()
        &&& forall|i: int|
            0 <= i < self.fields.len() && (#[trigger] self.fields[i]) is Alternative ==> {
                &&& group_named(groups, self.fields[i]->group, 0) is Some
                &&& groups[group_named(groups, self.fields[i]->group, 0)->Some_0].valid()
            }
    }
}

/// What is wrong with an integer field of `width` bytes, if anything.
pub fn check_width(width: usize) -> (kind: Option<SchemaErrorKind>)
    ensures
        kind == width_defect(width),
{
    if width > 8 {
        Some(SchemaErrorKind::WidthOverflow)
    } else if !(width == 1 || width == 2 || width == 4 || width == 8) {
        Some(SchemaErrorKind::WidthMismatch)
    } else {
        None
    }
}

impl StructField {
    /// The layout of a field of fixed shape.
    pub fn plain(&self) -> (plain: Plain)
        ensures
            plain == self@.plain(),
    {
        match self {
            StructField::FixedInt { width, .. } => Plain::Int(*width),
            StructField::EmbeddedBitfield { width, .. } => Plain::Int(*width),
            StructField::RawBytes { width, .. } => Plain::Bytes(*width),
            StructField::Alternative { .. } => Plain::Bytes(0),
        }
    }
}

impl Structure {
    /// Whether field `i` is named as an earlier field is.
    fn name_repeats(&self, i: usize) -> (b: bool)
        requires
            i < self.fields.len(),
        ensures
            b == field_name_repeats(self@.fields, i as int),
    {
        let name = self.fields[i].name();
        let mut j: usize = 0;
        while j < i
            invariant
                j <= i < self.fields.len(),
                name@ == self@.fields[i as int].name(),
                forall|k: int| 0 <= k < j ==> (#[trigger] self@.fields[k]).name() != name@,
            decreases i - j,
        {
            if same_text(self.fields[j].name(), name) {
                assert(self@.fields[j as int].name() == self@.fields[i as int].name());
                return true;
            }
            j += 1;
        }
        false
    }

    /// What is wrong with field `i` whatever groups there are.
    fn own_defect(&self, i: usize) -> (kind: Option<SchemaErrorKind>)
        requires
            i < self.fields.len(),
        ensures
            kind == own_defect(self@.fields, i as int),
    {
        if self.name_repeats(i) {
            return Some(SchemaErrorKind::DuplicateFieldName);
        }
        match &self.fields[i] {
            StructField::FixedInt { width, .. } => check_width(*width),
            StructField::EmbeddedBitfield { width, .. } => check_width(*width),
            _ => None,
        }
    }

    /// Checks the structure as one of fixed shape and lays its fields out. The
    /// first field that repeats a name, has a width that no integer has, or is
    /// an alternative field is reported by its name.
    pub fn compile_flat(&self) -> (r: Result<Vec<Plain>, SchemaError>)
        ensures
            match r {
                Ok(shape) => self@.flat_valid() && self@.flat_defect() is None && shape@
                    == self@.flat_layout() && flat_wf(shape@),
                Err(e) => !self@.flat_valid() && self@.flat_defect() == Some(e@),
            },
    {
        proof {
            self@.lemma_flat_defect_iff_invalid();
        }
        let mut shape: Vec<Plain> = Vec::new();
        let mut i: usize = 0;
        while i < self.fields.len()
            invariant
                i <= self.fields.len(),
                forall|k: int| 0 <= k < i ==> flat_field_defect(self@.fields, k) is None,
                shape@ == self@.flat_layout().take(i as int),
            decreases self.fields.len() - i,
        {
            let own = self.own_defect(i);
            let kind = match own {
                Some(kind) => Some(kind),
                None => match &self.fields[i] {
                    StructField::Alternative { .. } => Some(SchemaErrorKind::UnresolvedVariant),
                    _ => None,
                },
            };
            if let Some(kind) = kind {
                proof {
                    lemma_flat_defect_skip(self@.fields, 0, i as int);
                }
                return Err(SchemaError::new(kind, self.fields[i].name()));
            }
            shape.push(self.fields[i].plain());
            i += 1;
        }
        proof {
            lemma_flat_defect_skip(self@.fields, 0, self@.fields.len() as int);
            self@.lemma_flat_layout_wf();
        }
        Ok(shape)
    }
}

/// The integers other than zero in `domain`, in order, after a leading zero.
fn tags_of(domain: &Vec<u64>) -> (tags: Vec<u64>)
    ensures
        tags@ == seq![0u64] + others(domain@, domain@.len() as int),
{
    let mut tags: Vec<u64> = Vec::new();
    tags.push(0);
    let mut i: usize = 0;
    while i < domain.len()
        invariant
            i <= domain.len(),
            tags@ == seq![0u64] + others(domain@, i as int),
        decreases domain.len() - i,
    {
        if domain[i] != 0 {
            tags.push(domain[i]);
        }
        i += 1;
    }
    tags
}

/// Whether no integer occurs twice in `values`.
fn different(values: &Vec<u64>) -> (b: bool)
    ensures
        b == all_different(values@),
{
    let mut k: usize = 0;
    while k < values.len()
        invariant
            k <= values.len(),
            forall|a: int, b: int| 0 <= a < b < k ==> values@[a] != values@[b],
        decreases values.len() - k,
    {
        let mut j: usize = 0;
        while j < k
            invariant
                j <= k < values.len(),
                forall|a: int| 0 <= a < j ==> values@[a] != values@[k as int],
            decreases k - j,
        {
            if values[j] == values[k] {
                return false;
            }
            j += 1;
        }
        k += 1;
    }
    true
}

/// Whether zero occurs in `values`.
fn has_zero(values: &Vec<u64>) -> (found: bool)
    ensures
        found == values@.contains(0),
{
    let mut j: usize = 0;
    while j < values.len()
        invariant
            j <= values.len(),
            forall|a: int| 0 <= a < j ==> values@[a] != 0,
        decreases values.len() - j,
    {
        if values[j] == 0 {
            return true;
        }
        j += 1;
    }
    false
}

impl AlternativeOptions {
    /// Case `c` of the group, the fallback being case 0.
    fn case(&self, c: usize) -> (case: &Structure)
        requires
            c <= self.variants.len(),
        ensures
            case@ == self@.cases()[c as int],
    {
        if c == 0 {
            &self.fallback
        } else {
            &self.variants[c - 1]
        }
    }

    /// Whether case `c` is named as an earlier case is.
    fn case_repeats(&self, c: usize) -> (b: bool)
        requires
            c <= self.variants.len(),
        ensures
            b == case_name_repeats(self@.cases(), c as int),
    {
        let name = &self.case(c).name;
        let mut b: usize = 0;
        while b < c
            invariant
                b <= c <= self.variants.len(),
                name@ == self@.cases()[c as int].name,
                forall|k: int| 0 <= k < b ==> (#[trigger] self@.cases()[k]).name != name@,
            decreases c - b,
        {
            if same_text(&self.case(b).name, name) {
                return true;
            }
            b += 1;
        }
        false
    }

    /// Whether the group's shapes and the integers that its selector can hold
    /// match one for one.
    fn covered(&self) -> (b: bool)
        ensures
            b == self@.covered(),
    {
        let count = self.variants.len();
        match &self.selector {
            None => true,
            Some(domain) => {
                domain.len() >= 1 && domain.len() - 1 == count && different(domain) && has_zero(
                    domain,
                )
            },
        }
    }

    /// The discriminant of each case, the fallback's first.
    pub fn group_tags(&self) -> (tags: Vec<u64>)
        ensures
            tags@ == self@.tags(),
    {
        match &self.selector {
            Some(domain) => tags_of(domain),
            None => {
                let mut tags: Vec<u64> = Vec::new();
                tags.push(0);
                let mut k: usize = 0;
                while k < self.variants.len()
                    invariant
                        k <= self.variants.len(),
                        tags@ == Seq::new((1 + k) as nat, |c: int| c as u64),
                    decreases self.variants.len() - k,
                {
                    k += 1;
                    tags.push(k as u64);
                }
                tags
            },
        }
    }

    /// Checks the group and lays it out as a closed choice.
    ///
    /// The cases are examined in order, the fallback first. The first one that
    /// repeats the name of an earlier case is reported by its name; the first
    /// one that is not a sound structure of fixed shape is reported by the name
    /// of its offending field. A group whose cases are all sound is reported by
    /// its own name, as `UnresolvedVariant`, if its bound selector domain does
    /// not cover its cases one for one.
    pub fn compile(&self) -> (r: Result<FieldLayout, SchemaError>)
        ensures
            match r {
                Ok(layout) => self@.valid() && self@.defect() is None && layout@
                    == self@.layout() && layout@.wf(),
                Err(e) => !self@.valid() && self@.defect() == Some(e@),
            },
    {
        proof {
            self@.lemma_defect_iff_invalid();
        }
        let mut cases: Vec<Vec<Plain>> = Vec::new();
        let mut c: usize = 0;
        loop
            invariant_except_break
                c <= self.variants.len(),
                forall|k: int| 0 <= k < c ==> case_defect(self@.cases(), k) is None,
                cases_view(cases@) == self@.layout()->cases.take(c as int),
            invariant
                self@.cases().len() == 1 + self.variants.len(),
            ensures
                forall|k: int| 0 <= k < self@.cases().len() ==> case_defect(self@.cases(), k) is None,
                cases_view(cases@) == self@.layout()->cases,
            decreases self.variants.len() - c,
        {
            if self.case_repeats(c) {
                proof {
                    lemma_case_defect_skip(self@.cases(), 0, c as int);
                }
                return Err(
                    SchemaError::new(SchemaErrorKind::DuplicateFieldName, &self.case(c).name),
                );
            }
            match self.case(c).compile_flat() {
                Err(e) => {
                    proof {
                        lemma_case_defect_skip(self@.cases(), 0, c as int);
                    }
                    return Err(e);
                },
                Ok(shape) => {
                    let ghost before = cases_view(cases@);
                    let ghost added = shape@;
                    cases.push(shape);
                    assert(cases_view(cases@) =~= before.push(added));
                },
            }
            if c == self.variants.len() {
                break;
            }
            c += 1;
        }
        proof {
            lemma_case_defect_skip(self@.cases(), 0, self@.cases().len() as int);
        }
        if !self.covered() {
            return Err(SchemaError::new(SchemaErrorKind::UnresolvedVariant, &self.name));
        }
        proof {
            self@.lemma_sound_layout();
        }
        Ok(FieldLayout::Choice { tags: self.group_tags(), cases })
    }
}

impl Alternatives {
    /// The position of the first group called `name`.
    pub fn find(&self, name: &String) -> (found: Option<usize>)
        ensures
            match found {
                Some(g) => group_named(self@, name@, 0) == Some(g as int) && g < self.groups.len(),
                None => group_named(self@, name@, 0) is None,
            },
    {
        let mut g: usize = 0;
        while g < self.groups.len()
            invariant
                g <= self.groups.len(),
                forall|k: int| 0 <= k < g ==> (#[trigger] self@[k]).name != name@,
            decreases self.groups.len() - g,
        {
            if same_text(&self.groups[g].name, name) {
                proof {
                    lemma_group_named_skip(self@, name@, 0, g as int);
                }
                return Some(g);
            }
            g += 1;
        }
        proof {
            lemma_group_named_skip(self@, name@, 0, self@.len() as int);
        }
        None
    }
}

impl Structure {
    /// What is wrong with field `i`, if anything, and its layout if nothing is.
    fn compile_field(&self, i: usize, alternatives: &Alternatives) -> (r: Result<
        FieldLayout,
        SchemaError,
    >)
        requires
            i < self.fields.len(),
        ensures
            match r {
                Ok(layout) => field_defect(self@.fields, i as int, alternatives@) is None
                    && layout@ == self@.field_layout(alternatives@, i as int),
                Err(e) => field_defect(self@.fields, i as int, alternatives@) == Some(e@),
            },
    {
        if let Some(kind) = self.own_defect(i) {
            return Err(SchemaError::new(kind, self.fields[i].name()));
        }
        match &self.fields[i] {
            StructField::Alternative { name, group } => match alternatives.find(group) {
                None => Err(SchemaError::new(SchemaErrorKind::UnresolvedVariant, name)),
                Some(g) => {
                    alternatives.groups[g].compile()
                },
            },
            field => Ok(FieldLayout::Plain(field.plain())),
        }
    }

    /// Checks the structure and lays its fields out, the alternative fields
    /// taking their shapes from the groups of `alternatives` that they name.
    ///
    /// Fields are examined in declaration order and the first defective one
    /// decides. A field that repeats an earlier name, or an integer field that
    /// is not 1, 2, 4 or 8 bytes wide, is reported by its name; so is an
    /// alternative field that names no group of `alternatives`, as
    /// `UnresolvedVariant`. An alternative field whose group is defective is
    /// reported as the group itself would be.
    pub fn compile(&self, alternatives: &Alternatives) -> (r: Result<StructLayout, SchemaError>)
        ensures
            match r {
                Ok(layout) => self@.valid(alternatives@) && self@.defect(alternatives@) is None
                    && layout@ == self@.layout(alternatives@) && layout@.wf(),
                Err(e) => !self@.valid(alternatives@) && self@.defect(alternatives@) == Some(e@),
            },
    {
        proof {
            self@.lemma_defect_iff_invalid(alternatives@);
        }
        let mut fields: Vec<FieldLayout> = Vec::new();
        let mut i: usize = 0;
        while i < self.fields.len()
            invariant
                i <= self.fields.len(),
                forall|k: int| 0 <= k < i ==> field_defect(self@.fields, k, alternatives@) is None,
                field_layouts_view(fields@) == self@.layout(alternatives@).fields.take(i as int),
            decreases self.fields.len() - i,
        {
            match self.compile_field(i, alternatives) {
                Err(e) => {
                    proof {
                        lemma_field_defect_skip(self@.fields, alternatives@, 0, i as int);
                        self@.lemma_defect_iff_invalid(alternatives@);
                    }
                    return Err(e);
                },
                Ok(layout) => {
                    let ghost before = field_layouts_view(fields@);
                    let ghost added = layout@;
                    fields.push(layout);
                    assert(field_layouts_view(fields@) =~= before.push(added));
                },
            }
            i += 1;
        }
        proof {
            lemma_field_defect_skip(self@.fields, alternatives@, 0, self@.fields.len() as int);
            assert(field_layouts_view(fields@) =~= self@.layout(alternatives@).fields);
            self@.lemma_sound_layout(alternatives@);
        }
        Ok(StructLayout::from_parts(fields))
    }
}

} // verus!
