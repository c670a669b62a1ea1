//! From the declaration of the commands to their definitions.

use crate::common::{effective_variant_name, main_name_of, named};
use crate::declaration::{fold_results, lemma_fold_error, DataEnum, Field, Fields, Variant};
use crate::definition::{
    definitions_view, CommandDefinition, CommandDefinitionView, CommandFields, CommandFieldsView,
    FieldSpec, FieldSpecView, NamedFieldSpec, Shape,
};
use crate::enum_attributes::{Case, EnumAttributes};
use crate::error::{FieldLabelView, InvalidConfiguration};
use crate::field_attributes::{declared_default, FieldAttributes};
use crate::registry::{registered, Registry};
use crate::variant_attributes::{declared_variant_attributes, VariantAttributes};
use vstd::prelude::*;

verus! {

/// The named fields after one more: its name, its type and the default that
/// its attributes declare. A field without a name is refused.
pub open spec fn named_field_step(variant: int) -> spec_fn(Seq<FieldSpecView>, Field) -> Result<
    Seq<FieldSpecView>,
    InvalidConfiguration,
> {
    |acc: Seq<FieldSpecView>, field: Field|
        match field.ident {
            None => Err(
                InvalidConfiguration::MissingFieldName {
                    variant: variant as usize,
                    field: acc.len() as usize,
                },
            ),
            Some(name) => match declared_default(field.attrs@) {
                Err(e) => Err(e),
                Ok(default) => Ok(
                    acc.push(FieldSpecView { label: FieldLabelView::Name(name@), ty: field.ty, default }),
                ),
            },
        }
}

/// The positional fields after one more: its position, its type and the
/// default that its attributes declare.
pub open spec fn positional_field_step() -> spec_fn(Seq<FieldSpecView>, Field) -> Result<
    Seq<FieldSpecView>,
    InvalidConfiguration,
> {
    |acc: Seq<FieldSpecView>, field: Field|
        match declared_default(field.attrs@) {
            Err(e) => Err(e),
            Ok(default) => Ok(
                acc.push(
                    FieldSpecView {
                        label: FieldLabelView::Position(acc.len() as usize),
                        ty: field.ty,
                        default,
                    },
                ),
            ),
        }
}

/// The fields of a command as its variant declares them, in their order.
pub open spec fn declared_fields(fields: Fields, variant: int) -> Result<
    CommandFieldsView,
    InvalidConfiguration,
> {
    match fields {
        Fields::Unit => Ok(CommandFieldsView { shape: Shape::Unit, fields: Seq::empty() }),
        Fields::Named(named) => match fold_results(
            named@,
            named@.len() as int,
            Seq::empty(),
            named_field_step(variant),
        ) {
            Ok(fields) => Ok(CommandFieldsView { shape: Shape::NamedFields, fields }),
            Err(e) => Err(e),
        },
        Fields::Unnamed(unnamed) => match fold_results(
            unnamed@,
            unnamed@.len() as int,
            Seq::empty(),
            positional_field_step(),
        ) {
            Ok(fields) => Ok(CommandFieldsView { shape: Shape::PositionalFields, fields }),
            Err(e) => Err(e),
        },
    }
}

/// The definition of the command that the variant at position `index`
/// declares: its names, with the name in the case convention `rename_all`;
/// its doc lines; its fields. Where a convention is given, a name with a
/// character outside ASCII is refused.
pub open spec fn declared_definition(variant: Variant, index: int, rename_all: Option<Case>) -> Result<
    CommandDefinitionView,
    InvalidConfiguration,
> {
    match declared_variant_attributes(variant.attrs@) {
        Err(e) => Err(e),
        Ok(attrs) => if rename_all is Some && !vstd::utf8::is_ascii_chars(variant.ident@) {
            Err(InvalidConfiguration::NonAsciiName { variant: index as usize })
        } else {
            match declared_fields(variant.fields, index) {
                Err(e) => Err(e),
                Ok(fields) => Ok(
                    CommandDefinitionView {
                        names: named(main_name_of(variant.ident@, rename_all), attrs),
                        doc_lines: attrs.doc_lines,
                        shape: fields.shape,
                        fields: fields.fields,
                    },
                ),
            }
        },
    }
}

/// The definitions after one more variant.
pub open spec fn definition_step(rename_all: Option<Case>) -> spec_fn(
    Seq<CommandDefinitionView>,
    Variant,
) -> Result<Seq<CommandDefinitionView>, InvalidConfiguration> {
    |acc: Seq<CommandDefinitionView>, variant: Variant|
        match declared_definition(variant, acc.len() as int, rename_all) {
            Ok(def) => Ok(acc.push(def)),
            Err(e) => Err(e),
        }
}

/// The definitions of the commands that the variants declare, in the order
/// of the variants; or what is wrong with the first variant that is at
/// fault.
pub open spec fn declared_definitions(variants: Seq<Variant>, rename_all: Option<Case>) -> Result<
    Seq<CommandDefinitionView>,
    InvalidConfiguration,
> {
    fold_results(variants, variants.len() as int, Seq::empty(), definition_step(rename_all))
}

fn named_fields(fields: &Vec<Field>, variant: usize) -> (r: Result<Vec<NamedFieldSpec>, InvalidConfiguration>)
    ensures
        match r {
            Ok(specs) => declared_fields(Fields::Named(*fields), variant as int) == Ok::<
                CommandFieldsView,
                InvalidConfiguration,
            >(CommandFields::NamedFields(specs)@),
            Err(e) => declared_fields(Fields::Named(*fields), variant as int) == Err::<
                CommandFieldsView,
                InvalidConfiguration,
            >(e),
        },
{
    let mut specs: Vec<NamedFieldSpec> = Vec::new();
    let mut j: usize = 0;
    assert(CommandFields::NamedFields(specs)@.fields == Seq::<FieldSpecView>::empty());
    while j < fields.len()
        invariant
            j <= fields.len(),
            specs@.len() == j,
            fold_results(fields@, j as int, Seq::empty(), named_field_step(variant as int)) == Ok::<
                Seq<FieldSpecView>,
                InvalidConfiguration,
            >(CommandFields::NamedFields(specs)@.fields),
        decreases fields.len() - j,
    {
        let field = &fields[j];
        let ghost before = CommandFields::NamedFields(specs)@.fields;
        let step = match &field.ident {
            None => Err(InvalidConfiguration::MissingFieldName { variant, field: j }),
            Some(name) => match FieldAttributes::extract(&field.attrs) {
                Err(e) => Err(e),
                Ok(attrs) => Ok(
                    NamedFieldSpec {
                        name: name.clone(),
                        spec: FieldSpec { ty: field.ty, default: attrs.default },
                    },
                ),
            },
        };
        match step {
            Ok(spec) => {
                specs.push(spec);
                assert(CommandFields::NamedFields(specs)@.fields == before.push(
                    FieldSpecView {
                        label: FieldLabelView::Name(spec.name@),
                        ty: spec.spec.ty,
                        default: spec.spec.default@,
                    },
                ));
            },
            Err(e) => {
                proof {
                    lemma_fold_error(
                        fields@,
                        j + 1,
                        fields@.len() as int,
                        Seq::empty(),
                        named_field_step(variant as int),
                    );
                }
                return Err(e);
            },
        }
        j = j + 1;
    }
    Ok(specs)
}

fn positional_fields(fields: &Vec<Field>, variant: usize) -> (r: Result<Vec<FieldSpec>, InvalidConfiguration>)
    ensures
        match r {
            Ok(specs) => declared_fields(Fields::Unnamed(*fields), variant as int) == Ok::<
                CommandFieldsView,
                InvalidConfiguration,
            >(CommandFields::PositionalFields(specs)@),
            Err(e) => declared_fields(Fields::Unnamed(*fields), variant as int) == Err::<
                CommandFieldsView,
                InvalidConfiguration,
            >(e),
        },
{
    let mut specs: Vec<FieldSpec> = Vec::new();
    let mut j: usize = 0;
    assert(CommandFields::PositionalFields(specs)@.fields == Seq::<FieldSpecView>::empty());
    while j < fields.len()
        invariant
            j <= fields.len(),
            specs@.len() == j,
            fold_results(fields@, j as int, Seq::empty(), positional_field_step()) == Ok::<
                Seq<FieldSpecView>,
                InvalidConfiguration,
            >(CommandFields::PositionalFields(specs)@.fields),
        decreases fields.len() - j,
    {
        let field = &fields[j];
        let ghost before = CommandFields::PositionalFields(specs)@.fields;
        match FieldAttributes::extract(&field.attrs) {
            Ok(attrs) => {
                let spec = FieldSpec { ty: field.ty, default: attrs.default };
                specs.push(spec);
                assert(CommandFields::PositionalFields(specs)@.fields == before.push(
                    FieldSpecView {
                        label: FieldLabelView::Position(j),
                        ty: spec.ty,
                        default: spec.default@,
                    },
                ));
            },
            Err(e) => {
                proof {
                    lemma_fold_error(
                        fields@,
                        j + 1,
                        fields@.len() as int,
                        Seq::empty(),
                        positional_field_step(),
                    );
                }
                return Err(e);
            },
        }
        j = j + 1;
    }
    Ok(specs)
}

/// The definition of the command that a variant declares.
fn variant_definition(variant: &Variant, index: usize, attrs: &EnumAttributes) -> (r: Result<
    CommandDefinition,
    InvalidConfiguration,
>)
    ensures
        match r {
            Ok(def) => declared_definition(*variant, index as int, attrs.rename_all) == Ok::<
                CommandDefinitionView,
                InvalidConfiguration,
            >(def@),
            Err(e) => declared_definition(*variant, index as int, attrs.rename_all) == Err::<
                CommandDefinitionView,
                InvalidConfiguration,
            >(e),
        },
{
    let variant_attributes = match VariantAttributes::extract(&variant.attrs) {
        Ok(found) => found,
        Err(e) => {
            return Err(e);
        },
    };
    let names = match effective_variant_name(variant, attrs, &variant_attributes) {
        Some(names) => names,
        None => {
            return Err(InvalidConfiguration::NonAsciiName { variant: index });
        },
    };
    let fields = match &variant.fields {
        Fields::Named(named) => match named_fields(named, index) {
            Ok(specs) => CommandFields::NamedFields(specs),
            Err(e) => {
                return Err(e);
            },
        },
        Fields::Unit => CommandFields::Unit,
        Fields::Unnamed(unnamed) => match positional_fields(unnamed, index) {
            Ok(specs) => CommandFields::PositionalFields(specs),
            Err(e) => {
                return Err(e);
            },
        },
    };
    Ok(CommandDefinition { names, doc_lines: variant_attributes.doc_lines, fields })
}

/// The definitions of the commands that an enum declares, one for each
/// variant and in their order: what selects the command, by name, by alias
/// and by prefix, and what its fields are.
pub fn variant_matches(data_enum: &DataEnum, attrs: &EnumAttributes) -> (r: Result<
    Vec<CommandDefinition>,
    InvalidConfiguration,
>)
    ensures
        match r {
            Ok(defs) => declared_definitions(data_enum.variants@, attrs.rename_all) == Ok::<
                Seq<CommandDefinitionView>,
                InvalidConfiguration,
            >(definitions_view(defs@)),
            Err(e) => declared_definitions(data_enum.variants@, attrs.rename_all) == Err::<
                Seq<CommandDefinitionView>,
                InvalidConfiguration,
            >(e),
        },
{
    let variants = &data_enum.variants;
    let mut defs: Vec<CommandDefinition> = Vec::new();
    let mut i: usize = 0;
    assert(definitions_view(defs@) == Seq::<CommandDefinitionView>::empty());
    while i < variants.len()
        invariant
            i <= variants.len(),
            variants == &data_enum.variants,
            defs@.len() == i,
            fold_results(variants@, i as int, Seq::empty(), definition_step(attrs.rename_all)) == Ok::<
                Seq<CommandDefinitionView>,
                InvalidConfiguration,
            >(definitions_view(defs@)),
        decreases variants.len() - i,
    {
        let ghost before = definitions_view(defs@);
        match variant_definition(&variants[i], i, attrs) {
            Ok(def) => {
                defs.push(def);
                assert(definitions_view(defs@) == before.push(def@));
            },
            Err(e) => {
                proof {
                    lemma_fold_error(
                        variants@,
                        i + 1,
                        variants@.len() as int,
                        Seq::empty(),
                        definition_step(attrs.rename_all),
                    );
                }
                return Err(e);
            },
        }
        i = i + 1;
    }
    Ok(defs)
}

/// Makes the registry of the commands that an enum declares: reads the
/// variants and registers their definitions.
pub fn derive_parse_method(data_enum: &DataEnum, attrs: &EnumAttributes) -> (r: Result<
    Registry,
    InvalidConfiguration,
>)
    ensures
        registered(declared_definitions(data_enum.variants@, attrs.rename_all), r),
{
    match variant_matches(data_enum, attrs) {
        Ok(definitions) => Registry::new(definitions),
        Err(e) => Err(e),
    }
}

} // verus!
