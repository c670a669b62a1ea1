//! The names under which a command is known.

use crate::declaration::Variant;
use crate::enum_attributes::{Case, EnumAttributes};
use crate::text::{clone_texts, concat, texts};
use crate::variant_attributes::{VariantAttributes, VariantAttributesView};
use vstd::prelude::*;

verus! {

/// The names of a command.
#[derive(Debug, Clone, PartialEq, Eq)]
pub struct EffectiveVariantName {
    /// The command's name, in the case convention of the enum.
    pub main_name: String,
    /// Other names that select the command.
    pub aliases: Vec<String>,
    /// Texts that select the command when a word begins with one of them.
    pub start_withs: Vec<String>,
}

/// The names of a command as sequences of characters.
pub struct EffectiveVariantNameView {
    pub main_name: Seq<char>,
    pub aliases: Seq<Seq<char>>,
    pub start_withs: Seq<Seq<char>>,
}

impl View for EffectiveVariantName {
    type V = EffectiveVariantNameView;

    open spec fn view(&self) -> EffectiveVariantNameView {
        EffectiveVariantNameView {
            main_name: self.main_name@,
            aliases: texts(self.aliases@),
            start_withs: texts(self.start_withs@),
        }
    }
}

/// The text that the crate `convert_case` makes of `name` for the case
/// convention `case`: it splits the name into words and joins them again as
/// the convention has it.
pub uninterp spec fn case_converted(name: Seq<char>, case: Case) -> Seq<char>;

/// `convert_case::Casing::to_case` for `str`. The contract gives its result
/// the name `case_converted`; it is a function of the text and the case
/// alone. The call is kept to ASCII text: on other text the crate cuts the
/// text at byte offsets that it counted in characters.
#[verifier::external_body]
fn to_case(name: &str, case: Case) -> (out: String)
    requires
        vstd::utf8::is_ascii_chars(name@),
    ensures
        out@ == case_converted(name@, case),
{
    let case = match case {
        Case::Snake => convert_case::Case::Snake,
        Case::Kebab => convert_case::Case::Kebab,
        Case::Pascal => convert_case::Case::Pascal,
        Case::Camel => convert_case::Case::Camel,
        Case::ScreamingSnake => convert_case::Case::ScreamingSnake,
    };
    convert_case::Casing::to_case(name, case)
}

/// `|` and an alias, for each alias.
pub open spec fn alias_parts(aliases: Seq<Seq<char>>) -> spec_fn(int) -> Seq<char> {
    |i: int| seq!['|'] + aliases[i]
}

/// `|`, a prefix and `..`, for each prefix.
pub open spec fn prefix_parts(start_withs: Seq<Seq<char>>) -> spec_fn(int) -> Seq<char> {
    |i: int| seq!['|'] + start_withs[i] + seq!['.', '.']
}

/// How the names of a command are shown: the name, then `|` and an alias
/// for each alias, then `|`, a prefix and `..` for each prefix.
pub open spec fn shown_name(names: EffectiveVariantNameView) -> Seq<char> {
    names.main_name + concat(names.aliases.len() as int, alias_parts(names.aliases)) + concat(
        names.start_withs.len() as int,
        prefix_parts(names.start_withs),
    )
}

/// The names of a command whose name, once put into the case convention of
/// the enum, is `main_name`.
pub open spec fn named(main_name: Seq<char>, attrs: VariantAttributesView) -> EffectiveVariantNameView {
    EffectiveVariantNameView {
        main_name,
        aliases: attrs.aliases,
        start_withs: attrs.start_withs,
    }
}

/// The name of a command: the variant's name, put into the case convention
/// where the enum declares one.
pub open spec fn main_name_of(ident: Seq<char>, rename_all: Option<Case>) -> Seq<char> {
    match rename_all {
        Some(case) => case_converted(ident, case),
        None => ident,
    }
}

impl EffectiveVariantName {
    /// The names of a command from its name and from the aliases and
    /// prefixes that its variant declares, which are taken as they are.
    pub fn new(main_name: String, variant_attrs: &VariantAttributes) -> (r: Self)
        ensures
            r@ == named(main_name@, variant_attrs@),
    {
        let r = EffectiveVariantName {
            main_name,
            aliases: clone_texts(&variant_attrs.aliases),
            start_withs: clone_texts(&variant_attrs.start_withs),
        };
        r
    }

    /// The names as they are shown in the help listing.
    pub fn to_string(&self) -> (out: String)
        ensures
            out@ == shown_name(self@),
    {
        let mut out = self.main_name.clone();
        let mut i: usize = 0;
        while i < self.aliases.len()
            invariant
                i <= self.aliases.len(),
                out@ == self.main_name@ + concat(i as int, alias_parts(texts(self.aliases@))),
            decreases self.aliases.len() - i,
        {
            proof {
                reveal_strlit("|");
            }
            out.append("|");
            out.append(self.aliases[i].as_str());
            assert(out@ == self.main_name@ + concat(i + 1, alias_parts(texts(self.aliases@))));
            i = i + 1;
        }
        let ghost shown = out@;
        let mut j: usize = 0;
        while j < self.start_withs.len()
            invariant
                j <= self.start_withs.len(),
                out@ == shown + concat(j as int, prefix_parts(texts(self.start_withs@))),
            decreases self.start_withs.len() - j,
        {
            proof {
                reveal_strlit("|");
                reveal_strlit("..");
            }
            out.append("|");
            out.append(self.start_withs[j].as_str());
            out.append("..");
            assert(out@ == shown + concat(j + 1, prefix_parts(texts(self.start_withs@))));
            j = j + 1;
        }
        out
    }
}

/// The names of the command that a variant declares. There are none where
/// the enum declares a case convention and the variant's name holds a
/// character outside ASCII.
pub fn effective_variant_name(
    variant: &Variant,
    enum_attrs: &EnumAttributes,
    variant_attrs: &VariantAttributes,
) -> (r: Option<EffectiveVariantName>)
    ensures
        match r {
            Some(names) => names@ == named(
                main_name_of(variant.ident@, enum_attrs.rename_all),
                variant_attrs@,
            ),
            None => enum_attrs.rename_all is Some,
        },
        r is None <==> enum_attrs.rename_all is Some && !vstd::utf8::is_ascii_chars(variant.ident@),
{
    let main_name = match enum_attrs.rename_all {
        Some(rename_all) => {
            if !variant.ident.as_str().is_ascii() {
                return None;
            }
            to_case(variant.ident.as_str(), rename_all)
        },
        None => variant.ident.clone(),
    };
    Some(EffectiveVariantName::new(main_name, variant_attrs))
}

} // verus!
