//! What can go wrong: defects of a schema, found when it is compiled, and
//! failures of a compiled codec on the data it is given.
use vstd::prelude::*;

verus! {

/// The ways in which a schema can be malformed.
#[derive(Clone, Copy, Debug, PartialEq, Eq, Structural)]
pub enum SchemaErrorKind {
    /// The slot widths of a bit container add up to more than the widest
    /// supported container, or an embedded container is wider than that.
    WidthOverflow,
    /// The slot widths of a bit container add up to a total that is not the
    /// width of a supported container.
    WidthMismatch,
    /// A name is used twice within one container or structure.
    DuplicateFieldName,
    /// A symbol or an integer occurs twice in one enumerated domain.
    DuplicateEnumValue,
    /// An enumerated domain holds an integer that its slot cannot hold.
    EnumValueOutOfRange,
    /// A variant group cannot be matched with what selects among its variants.
    UnresolvedVariant,
}

/// A defect of a schema, with the name of the field, container or structure
/// that shows it.
#[derive(Debug)]
pub struct SchemaError {
    pub kind: SchemaErrorKind,
    pub subject: String,
}

/// The mathematical content of a [`SchemaError`].
pub struct SchemaErrorView {
    pub kind: SchemaErrorKind,
    pub subject: Seq<char>,
}

impl View for SchemaError {
    type V = SchemaErrorView;

    open spec fn view(&self) -> SchemaErrorView {
        SchemaErrorView { kind: self.kind, subject: self.subject@ }
    }
}

impl SchemaError {
    /// A defect of the given kind, shown by `subject`.
    pub fn new(kind: SchemaErrorKind, subject: &String) -> (e: SchemaError)
        ensures
            e@ == (SchemaErrorView { kind, subject: subject@ }),
    {
        SchemaError { kind, subject: subject.clone() }
    }

    /// The name of the kind of defect.
    pub fn kind_name(&self) -> (s: &'static str)
        ensures
            s@ == kind_label(self.kind),
    {
        match self.kind {
            SchemaErrorKind::WidthOverflow => "WidthOverflow",
            SchemaErrorKind::WidthMismatch => "WidthMismatch",
            SchemaErrorKind::DuplicateFieldName => "DuplicateFieldName",
            SchemaErrorKind::DuplicateEnumValue => "DuplicateEnumValue",
            SchemaErrorKind::EnumValueOutOfRange => "EnumValueOutOfRange",
            SchemaErrorKind::UnresolvedVariant => "UnresolvedVariant",
        }
    }
}

/// The label under which each kind of defect is reported.
pub open spec fn kind_label(kind: SchemaErrorKind) -> Seq<char> {
    match kind {
        SchemaErrorKind::WidthOverflow => "WidthOverflow"@,
        SchemaErrorKind::WidthMismatch => "WidthMismatch"@,
        SchemaErrorKind::DuplicateFieldName => "DuplicateFieldName"@,
        SchemaErrorKind::DuplicateEnumValue => "DuplicateEnumValue"@,
        SchemaErrorKind::EnumValueOutOfRange => "EnumValueOutOfRange"@,
        SchemaErrorKind::UnresolvedVariant => "UnresolvedVariant"@,
    }
}

/// The ways in which a compiled codec can fail on its input.
#[derive(Clone, Copy, Debug, PartialEq, Eq, Structural)]
pub enum CodecError {
    /// Fewer bytes remain than the next field occupies.
    TruncatedInput,
    /// An enumerated slot holds an integer that its domain does not declare.
    UndeclaredDiscriminant,
    /// A discriminant selects no variant of the group it is bound to.
    UnresolvedVariant,
}

/// The label under which each failure of a codec is reported.
pub open spec fn failure_label(failure: CodecError) -> Seq<char> {
    match failure {
        CodecError::TruncatedInput => "TruncatedInput"@,
        CodecError::UndeclaredDiscriminant => "UndeclaredDiscriminant"@,
        CodecError::UnresolvedVariant => "UnresolvedVariant"@,
    }
}

impl CodecError {
    /// The name of the failure, as the emitted codecs report it too.
    pub fn name(&self) -> (s: &'static str)
        ensures
            s@ == failure_label(*self),
    {
        match self {
            CodecError::TruncatedInput => "TruncatedInput",
            CodecError::UndeclaredDiscriminant => "UndeclaredDiscriminant",
            CodecError::UnresolvedVariant => "UnresolvedVariant",
        }
    }
}

} // verus!
