//! The declarations that a compiled schema gives rise to, gathered in the order
//! of their emission into one unit of output.
//!
//! A schema that does not compile adds nothing: a unit never holds part of the
//! declarations of a defective schema.
use vstd::prelude::*;
use crate::error::SchemaError;
use crate::error::SchemaErrorView;
use crate::generate::bitfield::BitField;
use crate::generate::bitfield::BitFieldView;
use crate::generate::bitfield::BitSlot;
use crate::generate::bitfield::BitSlotView;
use crate::generate::bitfield::Domain;
use crate::generate::bitfield::DomainView;
use crate::generate::bitfield::EnumValue;
use crate::generate::bitfield::EnumValueView;
use crate::generate::bitfield::copy_symbols;
use crate::generate::bitfield::symbols_view;
use crate::generate::bitfield::width_before;
use crate::generate::bitlayout::BitLayout;
use crate::generate::structure::AlternativeOptions;
use crate::generate::structure::Alternatives;
use crate::generate::structure::GroupView;
use crate::generate::structure::Shape;
use crate::generate::structure::SimpleStructure;
use crate::generate::structure::Structure;
use crate::generate::structure::StructureView;

verus! {

/// One emitted declaration.
#[derive(Debug)]
pub enum Declaration {
    /// What the codecs of structures rely on: an import, and the helper that
    /// takes a run of bytes from the input.
    Imports,
    /// The value type of a bit container: a wrapper of the unsigned integer of
    /// `bits` bits.
    Container { name: String, description: String, bits: u64 },
    /// The closed list of symbols that an enumerated slot can hold, each with
    /// the integer that stands for it, and the conversions between the two.
    Symbols { container: String, slot: String, symbols: Vec<EnumValue> },
    /// The accessors of a named slot of a container of `bits` bits: reading
    /// takes `width` bits from bit `offset` up and, if the slot is symbolic,
    /// maps the integer to its symbol; writing shifts the integer into the same
    /// place.
    Slot {
        container: String,
        bits: u64,
        slot: String,
        description: String,
        offset: u64,
        width: u64,
        symbolic: bool,
    },
    /// The type of a structure and the codec of its fields, in order.
    Record { schema: Structure },
    /// The sum type of a variant group and its dispatch: one case for each
    /// shape, the fallback first, each with the discriminant that selects it.
    Variants { name: String, cases: Vec<String>, tags: Vec<u64> },
}

/// The mathematical content of a [`Declaration`].
pub enum DeclarationView {
    Imports,
    Container { name: Seq<char>, description: Seq<char>, bits: u64 },
    Symbols { container: Seq<char>, slot: Seq<char>, symbols: Seq<EnumValueView> },
    Slot {
        container: Seq<char>,
        bits: u64,
        slot: Seq<char>,
        description: Seq<char>,
        offset: u64,
        width: u64,
        symbolic: bool,
    },
    Record { schema: StructureView },
    Variants { name: Seq<char>, cases: Seq<Seq<char>>, tags: Seq<u64> },
}

/// The texts of a list of strings, in order.
pub open spec fn texts_view(strings: Seq<String>) -> Seq<Seq<char>> {
    Seq::new(strings.len(), |i: int| strings[i]@)
}

impl View for Declaration {
    type V = DeclarationView;

    open spec fn view(&self) -> DeclarationView {
        match self {
            Declaration::Imports => DeclarationView::Imports,
            Declaration::Container { name, description, bits } => DeclarationView::Container {
                name: name@,
                description: description@,
                bits: *bits,
            },
            Declaration::Symbols { container, slot, symbols } => DeclarationView::Symbols {
                container: container@,
                slot: slot@,
                symbols: symbols_view(symbols@),
            },
            Declaration::Slot {
                container,
                bits,
                slot,
                description,
                offset,
                width,
                symbolic,
            } => DeclarationView::Slot {
                container: container@,
                bits: *bits,
                slot: slot@,
                description: description@,
                offset: *offset,
                width: *width,
                symbolic: *symbolic,
            },
            Declaration::Record { schema } => DeclarationView::Record { schema: schema@ },
            Declaration::Variants { name, cases, tags } => DeclarationView::Variants {
                name: name@,
                cases: texts_view(cases@),
                tags: tags@,
            },
        }
    }
}

/// The views of a list of declarations, in order.
pub open spec fn declarations_view(declarations: Seq<Declaration>) -> Seq<DeclarationView> {
    Seq::new(declarations.len(), |i: int| declarations[i]@)
}

/// The declarations that slot `i` of a container gives rise to: none for a
/// reserved slot; for a named slot its accessors, preceded by its symbols if it
/// is enumerated.
pub open spec fn slot_declarations(schema: BitFieldView, i: int) -> Seq<DeclarationView> {
    match schema.slots[i] {
        BitSlotView::Reserved { .. } => Seq::empty(),
        BitSlotView::Named { name, description, width, domain } => {
            let accessors = DeclarationView::Slot {
                container: schema.name,
                bits: schema.total_width() as u64,
                slot: name,
                description,
                offset: width_before(schema.slots, i) as u64,
                width,
                symbolic: domain is Enumerated,
            };
            match domain {
                DomainView::Numeric => seq![accessors],
                DomainView::Enumerated(symbols) => seq![
                    DeclarationView::Symbols { container: schema.name, slot: name, symbols },
                    accessors,
                ],
            }
        },
    }
}

/// The declarations that the first `n` slots of a container give rise to, after
/// that of the container's type.
pub open spec fn container_declarations(schema: BitFieldView, n: int) -> Seq<DeclarationView>
    decreases n,
{
    if n <= 0 {
        seq![
            DeclarationView::Container {
                name: schema.name,
                description: schema.description,
                bits: schema.total_width() as u64,
            },
        ]
    } else {
        container_declarations(schema, n - 1) + slot_declarations(schema, n - 1)
    }
}

impl BitFieldView {
    /// The declarations that a valid container gives rise to: its type, then
    /// the declarations of each slot in declaration order.
    pub open spec fn declarations(self) -> Seq<DeclarationView> {
        container_declarations(self, self.slots.len() as int)
    }
}

impl GroupView {
    /// The declaration that a sound group gives rise to: a sum type with one
    /// case for the fallback and one for each inserted variant.
    pub open spec fn declaration(self) -> DeclarationView {
        DeclarationView::Variants {
            name: self.name,
            cases: Seq::new(self.cases().len(), |c: int| self.cases()[c].name),
            tags: self.tags(),
        }
    }
}

/// The declarations that the first `n` groups give rise to.
pub open spec fn group_declarations(groups: Seq<GroupView>, n: int) -> Seq<DeclarationView> {
    Seq::new(n as nat, |g: int| groups[g].declaration())
}

/// Every group is sound.
pub open spec fn groups_valid(groups: Seq<GroupView>) -> bool {
    forall|g: int| 0 <= g < groups.len() ==> (#[trigger] groups[g]).valid()
}

/// The defect of the first defective group at or after `from`.
pub open spec fn first_group_defect(groups: Seq<GroupView>, from: int) -> Option<SchemaErrorView>
    decreases groups.len() - from,
{
    if from < 0 || from >= groups.len() {
        None
    } else if groups[from].defect() is Some {
        groups[from].defect()
    } else {
        first_group_defect(groups, from + 1)
    }
}

/// If no group between `from` and `to` is defective, the first defect at or
/// after `from` is the first at or after `to`.
pub proof fn lemma_group_defect_skip(groups: Seq<GroupView>, from: int, to: int)
    requires
        0 <= from <= to <= groups.len(),
        forall|g: int| from <= g < to ==> (#[trigger] groups[g]).defect() is None,
    ensures
        first_group_defect(groups, from) == first_group_defect(groups, to),
    decreases to - from,
{
    if from < to {
        lemma_group_defect_skip(groups, from + 1, to);
    }
}

/// The declarations gathered for one unit of output.
#[derive(Debug)]
pub struct GenFile {
    pub declarations: Vec<Declaration>,
}

impl View for GenFile {
    type V = Seq<DeclarationView>;

    open spec fn view(&self) -> Seq<DeclarationView> {
        declarations_view(self.declarations@)
    }
}

/// One unit of output: the declarations to be written, and where to.
#[derive(Debug)]
pub struct OutputUnit {
    pub path: String,
    pub declarations: Vec<Declaration>,
}

/// The mathematical content of an [`OutputUnit`].
pub struct OutputUnitView {
    pub path: Seq<char>,
    pub declarations: Seq<DeclarationView>,
}

/// The views of a list of units, in order.
pub open spec fn units_view(units: Seq<OutputUnit>) -> Seq<OutputUnitView> {
    Seq::new(units.len(), |i: int| units[i]@)
}

impl View for OutputUnit {
    type V = OutputUnitView;

    open spec fn view(&self) -> OutputUnitView {
        OutputUnitView { path: self.path@, declarations: declarations_view(self.declarations@) }
    }
}

impl GenFile {
    /// A unit with no declarations yet.
    pub fn new() -> (file: GenFile)
        ensures
            file@ == Seq::<DeclarationView>::empty(),
    {
        GenFile { declarations: Vec::new() }
    }

    fn push(&mut self, declaration: Declaration)
        ensures
            final(self)@ == old(self)@.push(declaration@),
    {
        self.declarations.push(declaration);
    }

    /// Adds what the codecs of structures rely on.
    pub fn add_struct_imports(&mut self)
        ensures
            final(self)@ == old(self)@.push(DeclarationView::Imports),
    {
        self.push(Declaration::Imports);
    }

    /// Compiles `bitfield` and adds its declarations: the container's type,
    /// then for each named slot in order its symbols, if it is enumerated, and
    /// its accessors. A defective schema adds nothing.
    pub fn add_bitfield(&mut self, bitfield: &BitField) -> (r: Result<BitLayout, SchemaError>)
        ensures
            match r {
                Ok(layout) => {
                    &&& bitfield@.valid()
                    &&& layout@ == bitfield@.layout()
                    &&& layout@.wf()
                    &&& final(self)@ == old(self)@ + bitfield@.declarations()
                },
                Err(e) => {
                    &&& !bitfield@.valid()
                    &&& bitfield@.defect() == Some(e@)
                    &&& final(self)@ == old(self)@
                },
            },
    {
        let layout = match bitfield.compile() {
            Ok(layout) => layout,
            Err(e) => {
                return Err(e);
            },
        };
        self.push(
            Declaration::Container {
                name: bitfield.name.clone(),
                description: bitfield.description.clone(),
                bits: layout.bits(),
            },
        );
        let mut i: usize = 0;
        while i < bitfield.slots.len()
            invariant
                i <= bitfield.slots.len(),
                layout@ == bitfield@.layout(),
                self@ == old(self)@ + container_declarations(bitfield@, i as int),
            decreases bitfield.slots.len() - i,
        {
            match &bitfield.slots[i] {
                BitSlot::Reserved { .. } => {},
                BitSlot::Named { name, description, width, domain } => {
                    let symbolic = match domain {
                        Domain::Numeric => false,
                        Domain::Enumerated(symbols) => {
                            self.push(
                                Declaration::Symbols {
                                    container: bitfield.name.clone(),
                                    slot: name.clone(),
                                    symbols: copy_symbols(symbols),
                                },
                            );
                            true
                        },
                    };
                    self.push(
                        Declaration::Slot {
                            container: bitfield.name.clone(),
                            bits: layout.bits(),
                            slot: name.clone(),
                            description: description.clone(),
                            offset: layout.slot(i).offset,
                            width: *width,
                            symbolic,
                        },
                    );
                },
            }
            i += 1;
        }
        Ok(layout)
    }

    /// Compiles `structure` as one of fixed shape and adds its declaration. A
    /// defective structure adds nothing.
    pub fn add_struct(&mut self, structure: &Structure) -> (r: Result<(), SchemaError>)
        ensures
            match r {
                Ok(_) => {
                    &&& structure@.flat_valid()
                    &&& final(self)@ == old(self)@.push(
                        DeclarationView::Record { schema: structure@ },
                    )
                },
                Err(e) => {
                    &&& !structure@.flat_valid()
                    &&& structure@.flat_defect() == Some(e@)
                    &&& final(self)@ == old(self)@
                },
            },
    {
        match structure.compile_flat() {
            Ok(_) => {
                self.push(Declaration::Record { schema: structure.clone() });
                Ok(())
            },
            Err(e) => Err(e),
        }
    }

    /// Compiles the structure that `simple` describes and adds its declaration.
    /// A defective structure adds nothing.
    pub fn add_struct_simple(&mut self, simple: &SimpleStructure) -> (r: Result<(), SchemaError>)
        ensures
            match r {
                Ok(_) => {
                    &&& simple.shape().flat_valid()
                    &&& final(self)@ == old(self)@.push(
                        DeclarationView::Record { schema: simple.shape() },
                    )
                },
                Err(e) => {
                    &&& !simple.shape().flat_valid()
                    &&& simple.shape().flat_defect() == Some(e@)
                    &&& final(self)@ == old(self)@
                },
            },
    {
        let structure = simple.to_structure();
        self.add_struct(&structure)
    }

    /// Compiles `structure`, its alternative fields taking their shapes from
    /// `alternatives`, and adds its declaration. A defective structure adds
    /// nothing.
    pub fn add_struct_with_alts(&mut self, structure: &Structure, alternatives: &Alternatives) -> (r:
        Result<(), SchemaError>)
        ensures
            match r {
                Ok(_) => {
                    &&& structure@.valid(alternatives@)
                    &&& final(self)@ == old(self)@.push(
                        DeclarationView::Record { schema: structure@ },
                    )
                },
                Err(e) => {
                    &&& !structure@.valid(alternatives@)
                    &&& structure@.defect(alternatives@) == Some(e@)
                    &&& final(self)@ == old(self)@
                },
            },
    {
        match structure.compile(alternatives) {
            Ok(_) => {
                self.push(Declaration::Record { schema: structure.clone() });
                Ok(())
            },
            Err(e) => Err(e),
        }
    }

    /// Compiles every group of `alternatives` and adds one sum type for each,
    /// in order. If any group is defective the first such is reported and
    /// nothing is added.
    pub fn add_alternatives(&mut self, alternatives: &Alternatives) -> (r: Result<(), SchemaError>)
        ensures
            match r {
                Ok(_) => {
                    &&& groups_valid(alternatives@)
                    &&& final(self)@ == old(self)@ + group_declarations(
                        alternatives@,
                        alternatives@.len() as int,
                    )
                },
                Err(e) => {
                    &&& !groups_valid(alternatives@)
                    &&& first_group_defect(alternatives@, 0) == Some(e@)
                    &&& final(self)@ == old(self)@
                },
            },
    {
        let mut g: usize = 0;
        while g < alternatives.groups.len()
            invariant
                g <= alternatives.groups.len(),
                *self == *old(self),
                forall|k: int| 0 <= k < g ==> (#[trigger] alternatives@[k]).defect() is None,
                forall|k: int| 0 <= k < g ==> (#[trigger] alternatives@[k]).valid(),
            decreases alternatives.groups.len() - g,
        {
            if let Err(e) = alternatives.groups[g].compile() {
                proof {
                    lemma_group_defect_skip(alternatives@, 0, g as int);
                }
                return Err(e);
            }
            g += 1;
        }
        proof {
            lemma_group_defect_skip(alternatives@, 0, alternatives@.len() as int);
        }
        let mut g: usize = 0;
        while g < alternatives.groups.len()
            invariant
                g <= alternatives.groups.len(),
                self@ == old(self)@ + group_declarations(alternatives@, g as int),
            decreases alternatives.groups.len() - g,
        {
            let declaration = alternatives.groups[g].declaration();
            self.push(declaration);
            g += 1;
        }
        Ok(())
    }

    /// Closes the unit: its declarations are to be written to `path`.
    pub fn into_unit(self, path: &str) -> (unit: OutputUnit)
        ensures
            unit@ == (OutputUnitView { path: path@, declarations: self@ }),
    {
        OutputUnit { path: path.to_owned(), declarations: self.declarations }
    }
}

impl AlternativeOptions {
    /// The declaration of the group's sum type.
    pub fn declaration(&self) -> (declaration: Declaration)
        ensures
            declaration@ == self@.declaration(),
    {
        let mut cases: Vec<String> = Vec::new();
        cases.push(self.fallback.name.clone());
        let mut k: usize = 0;
        while k < self.variants.len()
            invariant
                k <= self.variants.len(),
                texts_view(cases@) == self@.declaration()->cases.take(1 + k),
            decreases self.variants.len() - k,
        {
            let ghost before = texts_view(cases@);
            let name = self.variants[k].name.clone();
            cases.push(name);
            assert(texts_view(cases@) =~= before.push(self@.cases()[1 + k].name));
            k += 1;
        }
        assert(texts_view(cases@) =~= self@.declaration()->cases);
        Declaration::Variants { name: self.name.clone(), cases, tags: self.group_tags() }
    }
}

} // verus!
