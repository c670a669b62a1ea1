//! Command declarations as plain data: an enum whose variants are the
//! commands, with the attributes that are written on the enum, on its
//! variants and on their fields.

use crate::value::FieldType;
use vstd::prelude::*;

verus! {

/// A literal in an attribute.
#[derive(Debug, Clone, PartialEq, Eq)]
pub enum Lit {
    /// A string literal, with the text that it denotes.
    Str(String),
    /// Any other literal.
    Other,
}

/// One entry of the list in an attribute such as `replman(..)`.
#[derive(Debug, Clone, PartialEq, Eq)]
pub enum NestedMeta {
    /// A word alone, as `default`.
    Path(String),
    /// A word with a value, as `alias = "exit"`.
    NameValue { path: String, lit: Lit },
    /// A word with a list of its own.
    List(String),
    /// A literal alone.
    Lit(Lit),
}

/// The content of an attribute.
#[derive(Debug, Clone, PartialEq, Eq)]
pub enum Meta {
    /// A word alone.
    Path(String),
    /// A word with a list of entries, as `replman(alias = "exit")`.
    List { path: String, nested: Vec<NestedMeta> },
    /// A word with a value, as `doc = " Exits the program"`.
    NameValue { path: String, lit: Lit },
}

/// An attribute: its path and, where its arguments can be read as one, its
/// content.
#[derive(Debug, Clone, PartialEq, Eq)]
pub struct Attribute {
    pub path: String,
    pub meta: Option<Meta>,
}

/// A field of a variant.
#[derive(Debug, Clone, PartialEq, Eq)]
pub struct Field {
    /// The field's name; `None` for a field of a tuple variant.
    pub ident: Option<String>,
    pub attrs: Vec<Attribute>,
    pub ty: FieldType,
}

/// The fields of a variant.
#[derive(Debug, Clone, PartialEq, Eq)]
pub enum Fields {
    /// Fields in braces, each with a name.
    Named(Vec<Field>),
    /// Fields in parentheses, known by their position.
    Unnamed(Vec<Field>),
    /// No fields.
    Unit,
}

/// A variant of the enum: one command.
#[derive(Debug, Clone, PartialEq, Eq)]
pub struct Variant {
    pub ident: String,
    pub attrs: Vec<Attribute>,
    pub fields: Fields,
}

/// The variants of an enum, in the order of their declaration.
#[derive(Debug, Clone, PartialEq, Eq)]
pub struct DataEnum {
    pub variants: Vec<Variant>,
}

/// What kind of type a declaration declares.
#[derive(Debug, Clone, PartialEq, Eq)]
pub enum Data {
    Enum(DataEnum),
    Struct,
    Union,
}

/// A declaration of commands.
#[derive(Debug, Clone, PartialEq, Eq)]
pub struct DeriveInput {
    pub ident: String,
    pub attrs: Vec<Attribute>,
    pub data: Data,
}

/// Folds `step` over the first `n` of `items`, from `init`, and stops at the
/// first error.
pub open spec fn fold_results<A, S, E>(
    items: Seq<A>,
    n: int,
    init: S,
    step: spec_fn(S, A) -> Result<S, E>,
) -> Result<S, E>
    decreases n,
{
    if n <= 0 {
        Ok(init)
    } else {
        match fold_results(items, n - 1, init, step) {
            Ok(state) => step(state, items[n - 1]),
            Err(e) => Err(e),
        }
    }
}

/// Once a fold has met an error it keeps it.
pub proof fn lemma_fold_error<A, S, E>(
    items: Seq<A>,
    k: int,
    n: int,
    init: S,
    step: spec_fn(S, A) -> Result<S, E>,
)
    requires
        0 <= k <= n,
        fold_results(items, k, init, step) is Err,
    ensures
        fold_results(items, n, init, step) == fold_results(items, k, init, step),
    decreases n - k,
{
    if k < n {
        lemma_fold_error(items, k, n - 1, init, step);
    }
}

} // verus!
