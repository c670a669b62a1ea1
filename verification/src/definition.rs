//! Command definitions: what the registry holds of each command.

use crate::common::{EffectiveVariantName, EffectiveVariantNameView};
use crate::text::texts;
use crate::error::{FieldLabel, FieldLabelView};
use crate::field_attributes::{FieldDefault, FieldDefaultView};
use crate::value::FieldType;
use vstd::prelude::*;

verus! {

/// The type of a field and what stands for it when it gets no token.
#[derive(Debug, Clone, PartialEq, Eq)]
pub struct FieldSpec {
    pub ty: FieldType,
    pub default: FieldDefault,
}

/// A field with a name.
#[derive(Debug, Clone, PartialEq, Eq)]
pub struct NamedFieldSpec {
    pub name: String,
    pub spec: FieldSpec,
}

/// The fields of a command, in the order in which they take their tokens.
#[derive(Debug, Clone, PartialEq, Eq)]
pub enum CommandFields {
    /// No fields.
    Unit,
    /// Fields known by their names.
    NamedFields(Vec<NamedFieldSpec>),
    /// Fields known by their positions, counted from 0.
    PositionalFields(Vec<FieldSpec>),
}

/// The shape of a command.
#[derive(Debug, Clone, Copy, PartialEq, Eq)]
pub enum Shape {
    Unit,
    NamedFields,
    PositionalFields,
}

/// A field as the contracts speak of it: its label, its type and its default.
pub struct FieldSpecView {
    pub label: FieldLabelView,
    pub ty: FieldType,
    pub default: FieldDefaultView,
}

/// The fields of a command as the contracts speak of them.
pub struct CommandFieldsView {
    pub shape: Shape,
    pub fields: Seq<FieldSpecView>,
}

impl View for CommandFields {
    type V = CommandFieldsView;

    open spec fn view(&self) -> CommandFieldsView {
        match *self {
            CommandFields::Unit => CommandFieldsView { shape: Shape::Unit, fields: Seq::empty() },
            CommandFields::NamedFields(fields) => CommandFieldsView {
                shape: Shape::NamedFields,
                fields: Seq::new(
                    fields@.len(),
                    |j: int|
                        FieldSpecView {
                            label: FieldLabelView::Name(fields@[j].name@),
                            ty: fields@[j].spec.ty,
                            default: fields@[j].spec.default@,
                        },
                ),
            },
            CommandFields::PositionalFields(fields) => CommandFieldsView {
                shape: Shape::PositionalFields,
                fields: Seq::new(
                    fields@.len(),
                    |j: int|
                        FieldSpecView {
                            label: FieldLabelView::Position(j as usize),
                            ty: fields@[j].ty,
                            default: fields@[j].default@,
                        },
                ),
            },
        }
    }
}

impl CommandFields {
    /// The shape of the command.
    pub fn shape(&self) -> (r: Shape)
        ensures
            r == self@.shape,
    {
        match self {
            CommandFields::Unit => Shape::Unit,
            CommandFields::NamedFields(_) => Shape::NamedFields,
            CommandFields::PositionalFields(_) => Shape::PositionalFields,
        }
    }

    /// The number of fields.
    pub fn len(&self) -> (n: usize)
        ensures
            n == self@.fields.len(),
    {
        match self {
            CommandFields::Unit => 0,
            CommandFields::NamedFields(fields) => fields.len(),
            CommandFields::PositionalFields(fields) => fields.len(),
        }
    }

    /// The type and the default of the field at position `j`.
    pub fn spec_at(&self, j: usize) -> (r: &FieldSpec)
        requires
            j < self@.fields.len(),
        ensures
            r.ty == self@.fields[j as int].ty,
            r.default@ == self@.fields[j as int].default,
    {
        match self {
            CommandFields::Unit => vstd::pervasive::unreached(),
            CommandFields::NamedFields(fields) => &fields[j].spec,
            CommandFields::PositionalFields(fields) => &fields[j],
        }
    }

    /// The label of the field at position `j`: its name, or `j` where the
    /// fields have no names.
    pub fn label_at(&self, j: usize) -> (r: FieldLabel)
        requires
            j < self@.fields.len(),
        ensures
            r@ == self@.fields[j as int].label,
    {
        match self {
            CommandFields::NamedFields(fields) => FieldLabel::Name(fields[j].name.clone()),
            _ => FieldLabel::Position(j),
        }
    }
}

/// What the registry holds of a command.
#[derive(Debug, Clone, PartialEq, Eq)]
pub struct CommandDefinition {
    /// The command's name, its aliases and the prefixes that select it.
    pub names: EffectiveVariantName,
    /// The lines of the doc text.
    pub doc_lines: Vec<String>,
    /// The fields.
    pub fields: CommandFields,
}

/// A command definition as the contracts speak of it.
pub struct CommandDefinitionView {
    pub names: EffectiveVariantNameView,
    pub doc_lines: Seq<Seq<char>>,
    pub shape: Shape,
    pub fields: Seq<FieldSpecView>,
}

impl View for CommandDefinition {
    type V = CommandDefinitionView;

    open spec fn view(&self) -> CommandDefinitionView {
        CommandDefinitionView {
            names: self.names@,
            doc_lines: texts(self.doc_lines@),
            shape: self.fields@.shape,
            fields: self.fields@.fields,
        }
    }
}

/// Command definitions as the contracts speak of them.
pub open spec fn definitions_view(definitions: Seq<CommandDefinition>) -> Seq<CommandDefinitionView> {
    Seq::new(definitions.len(), |i: int| definitions[i]@)
}

} // verus!
