//! What the enum as a whole declares: the case convention of its commands'
//! names.

use crate::declaration::{fold_results, lemma_fold_error, Attribute, Lit, Meta, NestedMeta};
use crate::error::InvalidConfiguration;
use crate::text::same_text;
use vstd::prelude::*;

verus! {

/// A case convention for names.
#[derive(Debug, Clone, Copy, PartialEq, Eq)]
pub enum Case {
    /// `snake_case`
    Snake,
    /// `kebab-case`
    Kebab,
    /// `PascalCase`
    Pascal,
    /// `camelCase`
    Camel,
    /// `SCREAMING_SNAKE_CASE`
    ScreamingSnake,
}

/// The attributes of the enum.
#[derive(Debug, Clone, Copy, PartialEq, Eq)]
pub struct EnumAttributes {
    /// The case convention that every command's name is put into; `None`
    /// where the names stay as they are declared.
    pub rename_all: Option<Case>,
}

impl Default for EnumAttributes {
    fn default() -> (r: Self)
        ensures
            r.rename_all is None,
    {
        EnumAttributes { rename_all: None }
    }
}

/// The case convention that a name stands for, each written in its own
/// convention.
pub open spec fn case_named(s: Seq<char>) -> Option<Case> {
    if s == "snake_case"@ {
        Some(Case::Snake)
    } else if s == "kebab-case"@ {
        Some(Case::Kebab)
    } else if s == "PascalCase"@ {
        Some(Case::Pascal)
    } else if s == "camelCase"@ {
        Some(Case::Camel)
    } else if s == "SCREAMING_SNAKE_CASE"@ {
        Some(Case::ScreamingSnake)
    } else {
        None
    }
}

/// The convention after one entry of a `replman` attribute of the enum: an
/// entry `rename_all = "..."` sets it, another entry with a value leaves it,
/// and an entry of any other form is refused.
pub open spec fn rename_all_entry(current: Option<Case>, nested: NestedMeta) -> Result<
    Option<Case>,
    InvalidConfiguration,
> {
    match nested {
        NestedMeta::NameValue { path, lit } => if path@ == "rename_all"@ {
            match lit {
                Lit::Str(value) => match case_named(value@) {
                    Some(case) => Ok(Some(case)),
                    None => Err(InvalidConfiguration::UnsupportedCase),
                },
                Lit::Other => Err(InvalidConfiguration::InvalidLiteral),
            }
        } else {
            Ok(current)
        },
        _ => Err(InvalidConfiguration::Unsupported),
    }
}

/// `rename_all_entry` as a step of a fold.
pub open spec fn rename_all_entries() -> spec_fn(Option<Case>, NestedMeta) -> Result<
    Option<Case>,
    InvalidConfiguration,
> {
    |c: Option<Case>, n: NestedMeta| rename_all_entry(c, n)
}

/// The convention after one attribute of the enum. Only `replman`
/// attributes count, and each must be a list.
pub open spec fn rename_all_attr(current: Option<Case>, attr: Attribute) -> Result<
    Option<Case>,
    InvalidConfiguration,
> {
    if attr.path@ == "replman"@ {
        match attr.meta {
            None => Err(InvalidConfiguration::InvalidArguments),
            Some(Meta::List { path, nested }) => fold_results(
                nested@,
                nested@.len() as int,
                current,
                rename_all_entries(),
            ),
            Some(_) => Err(InvalidConfiguration::InvalidFirstLevelMeta),
        }
    } else {
        Ok(current)
    }
}

/// The convention that the attributes of the enum declare: that of the last
/// `rename_all` entry, or none.
pub open spec fn declared_case(attrs: Seq<Attribute>) -> Result<Option<Case>, InvalidConfiguration> {
    fold_results(attrs, attrs.len() as int, None, rename_all_attrs())
}

/// `rename_all_attr` as a step of a fold.
pub open spec fn rename_all_attrs() -> spec_fn(Option<Case>, Attribute) -> Result<
    Option<Case>,
    InvalidConfiguration,
> {
    |c: Option<Case>, a: Attribute| rename_all_attr(c, a)
}

impl EnumAttributes {
    /// Reads the attributes of the enum.
    pub fn extract(input_attrs: &Vec<Attribute>) -> (r: Result<Self, InvalidConfiguration>)
        ensures
            match r {
                Ok(attrs) => declared_case(input_attrs@) == Ok::<Option<Case>, InvalidConfiguration>(
                    attrs.rename_all,
                ),
                Err(e) => declared_case(input_attrs@) == Err::<Option<Case>, InvalidConfiguration>(e),
            },
    {
        let mut ret = EnumAttributes::default();
        match iter_over_attrs(input_attrs, &mut ret) {
            Ok(()) => Ok(ret),
            Err(e) => Err(e),
        }
    }
}

/// The case convention that a name stands for.
pub fn str_to_case(s: &str) -> (r: Option<Case>)
    ensures
        r == case_named(s@),
{
    if same_text(s, "snake_case") {
        Some(Case::Snake)
    } else if same_text(s, "kebab-case") {
        Some(Case::Kebab)
    } else if same_text(s, "PascalCase") {
        Some(Case::Pascal)
    } else if same_text(s, "camelCase") {
        Some(Case::Camel)
    } else if same_text(s, "SCREAMING_SNAKE_CASE") {
        Some(Case::ScreamingSnake)
    } else {
        None
    }
}

fn iter_over_attrs(input_attrs: &Vec<Attribute>, ret: &mut EnumAttributes) -> (r: Result<
    (),
    InvalidConfiguration,
>)
    ensures
        match r {
            Ok(_) => fold_results(
                input_attrs@,
                input_attrs@.len() as int,
                old(ret).rename_all,
                rename_all_attrs(),
            ) == Ok::<Option<Case>, InvalidConfiguration>(final(ret).rename_all),
            Err(e) => fold_results(
                input_attrs@,
                input_attrs@.len() as int,
                old(ret).rename_all,
                rename_all_attrs(),
            ) == Err::<Option<Case>, InvalidConfiguration>(e),
        },
{
    let ghost init = ret.rename_all;
    let mut i: usize = 0;
    while i < input_attrs.len()
        invariant
            i <= input_attrs.len(),
            init == old(ret).rename_all,
            fold_results(input_attrs@, i as int, init, rename_all_attrs()) == Ok::<
                Option<Case>,
                InvalidConfiguration,
            >(ret.rename_all),
        decreases input_attrs.len() - i,
    {
        let attr = &input_attrs[i];
        let step = if same_text(attr.path.as_str(), "replman") {
            match &attr.meta {
                None => Err(InvalidConfiguration::InvalidArguments),
                Some(Meta::List { path, nested }) => iter_over_nested(nested, ret),
                Some(_) => Err(InvalidConfiguration::InvalidFirstLevelMeta),
            }
        } else {
            Ok(())
        };
        match step {
            Ok(()) => {},
            Err(e) => {
                proof {
                    lemma_fold_error(
                        input_attrs@,
                        i + 1,
                        input_attrs@.len() as int,
                        init,
                        rename_all_attrs(),
                    );
                }
                return Err(e);
            },
        }
        i = i + 1;
    }
    Ok(())
}

fn iter_over_nested(nested: &Vec<NestedMeta>, ret: &mut EnumAttributes) -> (r: Result<
    (),
    InvalidConfiguration,
>)
    ensures
        match r {
            Ok(_) => fold_results(
                nested@,
                nested@.len() as int,
                old(ret).rename_all,
                rename_all_entries(),
            ) == Ok::<Option<Case>, InvalidConfiguration>(final(ret).rename_all),
            Err(e) => fold_results(
                nested@,
                nested@.len() as int,
                old(ret).rename_all,
                rename_all_entries(),
            ) == Err::<Option<Case>, InvalidConfiguration>(e),
        },
{
    let ghost init = ret.rename_all;
    let mut j: usize = 0;
    while j < nested.len()
        invariant
            j <= nested.len(),
            init == old(ret).rename_all,
            fold_results(nested@, j as int, init, rename_all_entries()) == Ok::<
                Option<Case>,
                InvalidConfiguration,
            >(ret.rename_all),
        decreases nested.len() - j,
    {
        match try_extract_rename_all(&nested[j], ret) {
            Ok(()) => {},
            Err(e) => {
                proof {
                    lemma_fold_error(nested@, j + 1, nested@.len() as int, init, rename_all_entries());
                }
                return Err(e);
            },
        }
        j = j + 1;
    }
    Ok(())
}

fn try_extract_rename_all(nested: &NestedMeta, ret: &mut EnumAttributes) -> (r: Result<
    (),
    InvalidConfiguration,
>)
    ensures
        match r {
            Ok(_) => rename_all_entry(old(ret).rename_all, *nested) == Ok::<
                Option<Case>,
                InvalidConfiguration,
            >(final(ret).rename_all),
            Err(e) => rename_all_entry(old(ret).rename_all, *nested) == Err::<
                Option<Case>,
                InvalidConfiguration,
            >(e),
        },
{
    match nested {
        NestedMeta::NameValue { path, lit } => {
            if same_text(path.as_str(), "rename_all") {
                match lit {
                    Lit::Str(value) => match str_to_case(value.as_str()) {
                        Some(case) => {
                            ret.rename_all = Some(case);
                            Ok(())
                        },
                        None => Err(InvalidConfiguration::UnsupportedCase),
                    },
                    Lit::Other => Err(InvalidConfiguration::InvalidLiteral),
                }
            } else {
                Ok(())
            }
        },
        _ => Err(InvalidConfiguration::Unsupported),
    }
}

} // verus!
