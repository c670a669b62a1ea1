//! What a variant declares: its doc text, its aliases and the prefixes that
//! select it.

use crate::declaration::{fold_results, lemma_fold_error, Attribute, Lit, Meta, NestedMeta};
use crate::error::InvalidConfiguration;
use crate::help_method::{declared_docs, extract_docs_from_attrs};
use crate::text::{same_text, texts};
use crate::value::result_view;
use vstd::prelude::*;

verus! {

/// The attributes of a variant.
#[derive(Debug, Clone, PartialEq, Eq)]
pub struct VariantAttributes {
    /// Other names that select the command, as they are written.
    pub aliases: Vec<String>,
    /// The lines of the doc text, each without the space that leads it.
    pub doc_lines: Vec<String>,
    /// Texts that select the command when a word begins with one of them,
    /// as they are written.
    pub start_withs: Vec<String>,
}

/// The attributes of a variant with their texts as sequences of characters.
pub struct VariantAttributesView {
    pub aliases: Seq<Seq<char>>,
    pub doc_lines: Seq<Seq<char>>,
    pub start_withs: Seq<Seq<char>>,
}

impl View for VariantAttributes {
    type V = VariantAttributesView;

    open spec fn view(&self) -> VariantAttributesView {
        VariantAttributesView {
            aliases: texts(self.aliases@),
            doc_lines: texts(self.doc_lines@),
            start_withs: texts(self.start_withs@),
        }
    }
}

impl Default for VariantAttributes {
    fn default() -> (r: Self)
        ensures
            r@.aliases.len() == 0,
            r@.doc_lines.len() == 0,
            r@.start_withs.len() == 0,
    {
        VariantAttributes { aliases: Vec::new(), doc_lines: Vec::new(), start_withs: Vec::new() }
    }
}

/// A doc text as it is shown: without the one space that leads it, if one
/// does.
pub open spec fn doc_text(value: Seq<char>) -> Seq<char> {
    if value.len() > 0 && value[0] == ' ' {
        value.skip(1)
    } else {
        value
    }
}

/// The line that a `doc` attribute holds. The attribute must have the form
/// `doc = "..."`.
pub open spec fn doc_line(attr: Attribute) -> Result<Seq<char>, InvalidConfiguration> {
    match attr.meta {
        None => Err(InvalidConfiguration::InvalidArguments),
        Some(Meta::NameValue { path, lit }) => match lit {
            Lit::Str(value) => Ok(doc_text(value@)),
            Lit::Other => Err(InvalidConfiguration::InvalidDocLiteral),
        },
        Some(_) => Err(InvalidConfiguration::InvalidDocAttribute),
    }
}

/// Aliases and prefixes after one entry of a `replman` attribute of a
/// variant: `alias = "..."` adds an alias, `starts_with = "..."` adds a
/// prefix, and another entry with a value is passed over. An entry of any
/// other form is refused.
pub open spec fn replman_entry(current: (Seq<Seq<char>>, Seq<Seq<char>>), nested: NestedMeta) -> Result<
    (Seq<Seq<char>>, Seq<Seq<char>>),
    InvalidConfiguration,
> {
    match nested {
        NestedMeta::NameValue { path, lit } => if path@ == "alias"@ {
            match lit {
                Lit::Str(value) => Ok((current.0.push(value@), current.1)),
                Lit::Other => Err(InvalidConfiguration::InvalidLiteral),
            }
        } else if path@ == "starts_with"@ {
            match lit {
                Lit::Str(value) => Ok((current.0, current.1.push(value@))),
                Lit::Other => Err(InvalidConfiguration::InvalidLiteral),
            }
        } else {
            Ok(current)
        },
        _ => Err(InvalidConfiguration::Unsupported),
    }
}

/// `replman_entry` as a step of a fold.
pub open spec fn replman_entries() -> spec_fn((Seq<Seq<char>>, Seq<Seq<char>>), NestedMeta) -> Result<
    (Seq<Seq<char>>, Seq<Seq<char>>),
    InvalidConfiguration,
> {
    |c: (Seq<Seq<char>>, Seq<Seq<char>>), n: NestedMeta| replman_entry(c, n)
}

/// Aliases and prefixes after one attribute of a variant. Only `replman`
/// attributes count, and each must be a list.
pub open spec fn replman_attr(current: (Seq<Seq<char>>, Seq<Seq<char>>), attr: Attribute) -> Result<
    (Seq<Seq<char>>, Seq<Seq<char>>),
    InvalidConfiguration,
> {
    if attr.path@ == "replman"@ {
        match attr.meta {
            None => Err(InvalidConfiguration::InvalidArguments),
            Some(Meta::List { path, nested }) => fold_results(
                nested@,
                nested@.len() as int,
                current,
                replman_entries(),
            ),
            Some(_) => Err(InvalidConfiguration::InvalidFirstLevelMeta),
        }
    } else {
        Ok(current)
    }
}

/// `replman_attr` as a step of a fold.
pub open spec fn replman_attrs() -> spec_fn((Seq<Seq<char>>, Seq<Seq<char>>), Attribute) -> Result<
    (Seq<Seq<char>>, Seq<Seq<char>>),
    InvalidConfiguration,
> {
    |c: (Seq<Seq<char>>, Seq<Seq<char>>), a: Attribute| replman_attr(c, a)
}

/// What the attributes of a variant declare: the doc lines in order, then
/// the aliases and the prefixes, each in the order in which they are
/// written. A fault in a `doc` attribute is reported before one in a
/// `replman` attribute.
pub open spec fn declared_variant_attributes(attrs: Seq<Attribute>) -> Result<
    VariantAttributesView,
    InvalidConfiguration,
> {
    match declared_docs(attrs) {
        Err(e) => Err(e),
        Ok(doc_lines) => match fold_results(
            attrs,
            attrs.len() as int,
            (Seq::empty(), Seq::empty()),
            replman_attrs(),
        ) {
            Err(e) => Err(e),
            Ok((aliases, start_withs)) => Ok(VariantAttributesView { aliases, doc_lines, start_withs }),
        },
    }
}

impl VariantAttributes {
    /// Reads the attributes of a variant.
    pub fn extract(attrs: &Vec<Attribute>) -> (r: Result<Self, InvalidConfiguration>)
        ensures
            result_view(r) == declared_variant_attributes(attrs@),
    {
        let mut ret = VariantAttributes::default();
        match extract_docs_from_attrs(attrs) {
            Ok(doc_lines) => {
                ret.doc_lines = doc_lines;
            },
            Err(e) => {
                return Err(e);
            },
        }
        let ghost init = (texts(ret.aliases@), texts(ret.start_withs@));
        assert(init == (Seq::<Seq<char>>::empty(), Seq::<Seq<char>>::empty()));
        let mut i: usize = 0;
        while i < attrs.len()
            invariant
                i <= attrs.len(),
                init == (Seq::<Seq<char>>::empty(), Seq::<Seq<char>>::empty()),
                declared_docs(attrs@) == Ok::<Seq<Seq<char>>, InvalidConfiguration>(
                    texts(ret.doc_lines@),
                ),
                fold_results(attrs@, i as int, init, replman_attrs()) == Ok::<
                    (Seq<Seq<char>>, Seq<Seq<char>>),
                    InvalidConfiguration,
                >((texts(ret.aliases@), texts(ret.start_withs@))),
            decreases attrs.len() - i,
        {
            let attr = &attrs[i];
            let step = if same_text(attr.path.as_str(), "replman") {
                match &attr.meta {
                    None => Err(InvalidConfiguration::InvalidArguments),
                    Some(Meta::List { path, nested }) => iter_over_nested(nested, &mut ret),
                    Some(_) => Err(InvalidConfiguration::InvalidFirstLevelMeta),
                }
            } else {
                Ok(())
            };
            match step {
                Ok(()) => {},
                Err(e) => {
                    proof {
                        lemma_fold_error(attrs@, i + 1, attrs@.len() as int, init, replman_attrs());
                    }
                    return Err(e);
                },
            }
            i = i + 1;
        }
        Ok(ret)
    }
}

/// Adds the line of a `doc` attribute to the lines read so far.
pub fn extract_doc_line(attr: &Attribute, ret: &mut Vec<String>) -> (r: Result<
    (),
    InvalidConfiguration,
>)
    ensures
        match r {
            Ok(_) => doc_line(*attr) matches Ok(line) && texts(final(ret)@) == texts(old(ret)@).push(
                line,
            ),
            Err(e) => doc_line(*attr) == Err::<Seq<char>, InvalidConfiguration>(e) && final(ret)@
                == old(ret)@,
        },
{
    match &attr.meta {
        None => Err(InvalidConfiguration::InvalidArguments),
        Some(Meta::NameValue { path, lit }) => match lit {
            Lit::Str(value) => {
                let value = value.as_str();
                let n = value.unicode_len();
                let line = if n > 0 && value.get_char(0) == ' ' {
                    value.substring_char(1, n).to_owned()
                } else {
                    value.to_owned()
                };
                let ghost before = texts(ret@);
                ret.push(line);
                assert(texts(ret@) == before.push(line@));
                Ok(())
            },
            Lit::Other => Err(InvalidConfiguration::InvalidDocLiteral),
        },
        Some(_) => Err(InvalidConfiguration::InvalidDocAttribute),
    }
}

fn iter_over_nested(nested: &Vec<NestedMeta>, ret: &mut VariantAttributes) -> (r: Result<
    (),
    InvalidConfiguration,
>)
    ensures
        final(ret).doc_lines == old(ret).doc_lines,
        match r {
            Ok(_) => fold_results(
                nested@,
                nested@.len() as int,
                (texts(old(ret).aliases@), texts(old(ret).start_withs@)),
                replman_entries(),
            ) == Ok::<(Seq<Seq<char>>, Seq<Seq<char>>), InvalidConfiguration>(
                (texts(final(ret).aliases@), texts(final(ret).start_withs@)),
            ),
            Err(e) => fold_results(
                nested@,
                nested@.len() as int,
                (texts(old(ret).aliases@), texts(old(ret).start_withs@)),
                replman_entries(),
            ) == Err::<(Seq<Seq<char>>, Seq<Seq<char>>), InvalidConfiguration>(e),
        },
{
    let ghost init = (texts(ret.aliases@), texts(ret.start_withs@));
    let mut j: usize = 0;
    while j < nested.len()
        invariant
            j <= nested.len(),
            init == (texts(old(ret).aliases@), texts(old(ret).start_withs@)),
            ret.doc_lines == old(ret).doc_lines,
            fold_results(nested@, j as int, init, replman_entries()) == Ok::<
                (Seq<Seq<char>>, Seq<Seq<char>>),
                InvalidConfiguration,
            >((texts(ret.aliases@), texts(ret.start_withs@))),
        decreases nested.len() - j,
    {
        match extract_replman(&nested[j], ret) {
            Ok(()) => {},
            Err(e) => {
                proof {
                    lemma_fold_error(nested@, j + 1, nested@.len() as int, init, replman_entries());
                }
                return Err(e);
            },
        }
        j = j + 1;
    }
    Ok(())
}

fn extract_replman(nested: &NestedMeta, ret: &mut VariantAttributes) -> (r: Result<
    (),
    InvalidConfiguration,
>)
    ensures
        final(ret).doc_lines == old(ret).doc_lines,
        match r {
            Ok(_) => replman_entry((texts(old(ret).aliases@), texts(old(ret).start_withs@)), *nested)
                == Ok::<(Seq<Seq<char>>, Seq<Seq<char>>), InvalidConfiguration>(
                (texts(final(ret).aliases@), texts(final(ret).start_withs@)),
            ),
            Err(e) => replman_entry((texts(old(ret).aliases@), texts(old(ret).start_withs@)), *nested)
                == Err::<(Seq<Seq<char>>, Seq<Seq<char>>), InvalidConfiguration>(e),
        },
{
    match nested {
        NestedMeta::NameValue { path, lit } => {
            if same_text(path.as_str(), "alias") {
                match lit {
                    Lit::Str(value) => {
                        let ghost before = texts(ret.aliases@);
                        ret.aliases.push(value.clone());
                        assert(texts(ret.aliases@) == before.push(value@));
                        Ok(())
                    },
                    Lit::Other => Err(InvalidConfiguration::InvalidLiteral),
                }
            } else if same_text(path.as_str(), "starts_with") {
                match lit {
                    Lit::Str(value) => {
                        let ghost before = texts(ret.start_withs@);
                        ret.start_withs.push(value.clone());
                        assert(texts(ret.start_withs@) == before.push(value@));
                        Ok(())
                    },
                    Lit::Other => Err(InvalidConfiguration::InvalidLiteral),
                }
            } else {
                Ok(())
            }
        },
        _ => Err(InvalidConfiguration::Unsupported),
    }
}

} // verus!
