//! What a field declares about its default.

use crate::declaration::{fold_results, lemma_fold_error, Attribute, Lit, Meta, NestedMeta};
use crate::error::InvalidConfiguration;
use crate::text::same_text;
use vstd::prelude::*;

verus! {

/// What stands for a field that gets no token.
#[derive(Debug, Clone, PartialEq, Eq)]
pub enum FieldDefault {
    /// Nothing: the field is required, unless its type is optional.
    Required,
    /// The value that this literal denotes in the field's type.
    ExplicitDefault(String),
    /// The zero or empty value of the field's type.
    TypeDefault,
}

/// A default with its literal as a sequence of characters.
pub enum FieldDefaultView {
    Required,
    ExplicitDefault(Seq<char>),
    TypeDefault,
}

impl View for FieldDefault {
    type V = FieldDefaultView;

    open spec fn view(&self) -> FieldDefaultView {
        match *self {
            FieldDefault::Required => FieldDefaultView::Required,
            FieldDefault::ExplicitDefault(literal) => FieldDefaultView::ExplicitDefault(literal@),
            FieldDefault::TypeDefault => FieldDefaultView::TypeDefault,
        }
    }
}

impl FieldDefault {
    /// Whether the field has no default.
    pub fn is_none(&self) -> (r: bool)
        ensures
            r == (self@ is Required),
    {
        match self {
            FieldDefault::Required => true,
            _ => false,
        }
    }
}

impl Default for FieldDefault {
    fn default() -> (r: Self)
        ensures
            r@ is Required,
    {
        FieldDefault::Required
    }
}

/// The attributes of a field.
#[derive(Debug, Clone, PartialEq, Eq)]
pub struct FieldAttributes {
    pub default: FieldDefault,
}

impl Default for FieldAttributes {
    fn default() -> (r: Self)
        ensures
            r.default@ is Required,
    {
        FieldAttributes { default: FieldDefault::Required }
    }
}

/// The default after one entry of a `replman` attribute of a field: the
/// word `default` alone asks for the type's own default, `default = "..."`
/// gives a literal, and other words are passed over. A list or a literal
/// alone is refused.
pub open spec fn default_entry(current: FieldDefaultView, nested: NestedMeta) -> Result<
    FieldDefaultView,
    InvalidConfiguration,
> {
    match nested {
        NestedMeta::Path(path) => if path@ == "default"@ {
            Ok(FieldDefaultView::TypeDefault)
        } else {
            Ok(current)
        },
        NestedMeta::NameValue { path, lit } => if path@ == "default"@ {
            match lit {
                Lit::Str(value) => Ok(FieldDefaultView::ExplicitDefault(value@)),
                Lit::Other => Err(InvalidConfiguration::InvalidLiteral),
            }
        } else {
            Ok(current)
        },
        _ => Err(InvalidConfiguration::Unsupported),
    }
}

/// `default_entry` as a step of a fold.
pub open spec fn default_entries() -> spec_fn(FieldDefaultView, NestedMeta) -> Result<
    FieldDefaultView,
    InvalidConfiguration,
> {
    |d: FieldDefaultView, n: NestedMeta| default_entry(d, n)
}

/// The default after one attribute of a field. Only `replman` attributes
/// count, and each must be a list.
pub open spec fn default_attr(current: FieldDefaultView, attr: Attribute) -> Result<
    FieldDefaultView,
    InvalidConfiguration,
> {
    if attr.path@ == "replman"@ {
        match attr.meta {
            None => Err(InvalidConfiguration::InvalidArguments),
            Some(Meta::List { path, nested }) => fold_results(
                nested@,
                nested@.len() as int,
                current,
                default_entries(),
            ),
            Some(_) => Err(InvalidConfiguration::InvalidFirstLevelMeta),
        }
    } else {
        Ok(current)
    }
}

/// `default_attr` as a step of a fold.
pub open spec fn default_attrs() -> spec_fn(FieldDefaultView, Attribute) -> Result<
    FieldDefaultView,
    InvalidConfiguration,
> {
    |d: FieldDefaultView, a: Attribute| default_attr(d, a)
}

/// The default that the attributes of a field declare: that of the last
/// `default` entry, or none.
pub open spec fn declared_default(attrs: Seq<Attribute>) -> Result<
    FieldDefaultView,
    InvalidConfiguration,
> {
    fold_results(attrs, attrs.len() as int, FieldDefaultView::Required, default_attrs())
}

impl FieldAttributes {
    /// Reads the attributes of a field.
    pub fn extract(attrs: &Vec<Attribute>) -> (r: Result<Self, InvalidConfiguration>)
        ensures
            match r {
                Ok(found) => declared_default(attrs@) == Ok::<FieldDefaultView, InvalidConfiguration>(
                    found.default@,
                ),
                Err(e) => declared_default(attrs@) == Err::<FieldDefaultView, InvalidConfiguration>(e),
            },
    {
        let mut ret = FieldAttributes::default();
        match iter_over_attrs(attrs, &mut ret) {
            Ok(()) => Ok(ret),
            Err(e) => Err(e),
        }
    }
}

fn iter_over_attrs(input_attrs: &Vec<Attribute>, ret: &mut FieldAttributes) -> (r: Result<
    (),
    InvalidConfiguration,
>)
    ensures
        match r {
            Ok(_) => fold_results(
                input_attrs@,
                input_attrs@.len() as int,
                old(ret).default@,
                default_attrs(),
            ) == Ok::<FieldDefaultView, InvalidConfiguration>(final(ret).default@),
            Err(e) => fold_results(
                input_attrs@,
                input_attrs@.len() as int,
                old(ret).default@,
                default_attrs(),
            ) == Err::<FieldDefaultView, InvalidConfiguration>(e),
        },
{
    let ghost init = ret.default@;
    let mut i: usize = 0;
    while i < input_attrs.len()
        invariant
            i <= input_attrs.len(),
            init == old(ret).default@,
            fold_results(input_attrs@, i as int, init, default_attrs()) == Ok::<
                FieldDefaultView,
                InvalidConfiguration,
            >(ret.default@),
        decreases input_attrs.len() - i,
    {
        let attr = &input_attrs[i];
        let step = if same_text(attr.path.as_str(), "replman") {
            match &attr.meta {
                None => Err(InvalidConfiguration::InvalidArguments),
                Some(Meta::List { path, nested }) => iter_over_nested(nested, ret),
                Some(_) => Err(InvalidConfiguration::InvalidFirstLevelMeta),
            }
        } else {
            Ok(())
        };
        match step {
            Ok(()) => {},
            Err(e) => {
                proof {
                    lemma_fold_error(input_attrs@, i + 1, input_attrs@.len() as int, init, default_attrs());
                }
                return Err(e);
            },
        }
        i = i + 1;
    }
    Ok(())
}

fn iter_over_nested(nested: &Vec<NestedMeta>, ret: &mut FieldAttributes) -> (r: Result<
    (),
    InvalidConfiguration,
>)
    ensures
        match r {
            Ok(_) => fold_results(nested@, nested@.len() as int, old(ret).default@, default_entries())
                == Ok::<FieldDefaultView, InvalidConfiguration>(final(ret).default@),
            Err(e) => fold_results(nested@, nested@.len() as int, old(ret).default@, default_entries())
                == Err::<FieldDefaultView, InvalidConfiguration>(e),
        },
{
    let ghost init = ret.default@;
    let mut j: usize = 0;
    while j < nested.len()
        invariant
            j <= nested.len(),
            init == old(ret).default@,
            fold_results(nested@, j as int, init, default_entries()) == Ok::<
                FieldDefaultView,
                InvalidConfiguration,
            >(ret.default@),
        decreases nested.len() - j,
    {
        match try_extract_default(&nested[j], ret) {
            Ok(()) => {},
            Err(e) => {
                proof {
                    lemma_fold_error(nested@, j + 1, nested@.len() as int, init, default_entries());
                }
                return Err(e);
            },
        }
        j = j + 1;
    }
    Ok(())
}

fn try_extract_default(nested: &NestedMeta, ret: &mut FieldAttributes) -> (r: Result<
    (),
    InvalidConfiguration,
>)
    ensures
        match r {
            Ok(_) => default_entry(old(ret).default@, *nested) == Ok::<
                FieldDefaultView,
                InvalidConfiguration,
            >(final(ret).default@),
            Err(e) => default_entry(old(ret).default@, *nested) == Err::<
                FieldDefaultView,
                InvalidConfiguration,
            >(e),
        },
{
    match nested {
        NestedMeta::Path(path) => {
            if same_text(path.as_str(), "default") {
                ret.default = FieldDefault::TypeDefault;
            }
            Ok(())
        },
        NestedMeta::NameValue { path, lit } => {
            if same_text(path.as_str(), "default") {
                match lit {
                    Lit::Str(value) => {
                        ret.default = FieldDefault::ExplicitDefault(value.clone());
                        Ok(())
                    },
                    Lit::Other => Err(InvalidConfiguration::InvalidLiteral),
                }
            } else {
                Ok(())
            }
        },
        _ => Err(InvalidConfiguration::Unsupported),
    }
}

} // verus!
