//! A command-specification engine for line-oriented command interpreters.
//!
//! A line of text is split into tokens with shell-like quoting, its first
//! token selects a command from a registry (exact name, then alias, then
//! prefix), the remaining tokens are bound to the command's typed fields, and
//! the registry renders an aligned help listing.

use crate::definition::CommandDefinitionView;
use crate::error::{Error, ParseError};
use crate::help_method::help_text;
use crate::parsing::{parts_view, split_string_unescape, tokens_of, TokenizeError};
use crate::registry::{parsed_view, parses, CommandValue};
use crate::value::result_view;
use vstd::prelude::*;

pub mod bind;
pub mod common;
pub mod declaration;
pub mod definition;
pub mod enum_attributes;
pub mod error;
pub mod field_attributes;
pub mod help_method;
pub mod number;
pub mod parse_method;
pub mod parsing;
pub mod prelude;
pub mod registry;
pub mod repl;
pub mod resolve;
pub mod text;
pub mod value;
pub mod variant_attributes;

verus! {

/// The characters of a token that may be absent.
pub open spec fn token_text(item: Option<&str>) -> Option<Seq<char>> {
    match item {
        Some(s) => Some(s@),
        None => None,
    }
}

/// A type of field: how its values are read from a token.
///
/// A type either needs a token or is optional. An optional type has a value
/// for the token that is absent and wraps the value of a token that is
/// present; it has no default, neither its own nor one given as a literal.
pub trait ReplmanParse {
    /// The values of fields of this type.
    type Value: View;

    /// Whether a field of this type may go without a token.
    spec fn optional(&self) -> bool;

    /// The value that a token denotes, or why it denotes none.
    spec fn literal(&self, text: Seq<char>) -> Result<<Self::Value as View>::V, ParseError>;

    /// The value of a field without a token, for an optional type.
    spec fn absent(&self) -> <Self::Value as View>::V;

    /// The type's own default, for a type that is not optional.
    spec fn zero(&self) -> <Self::Value as View>::V;

    /// Whether a field of this type may go without a token.
    fn is_optional(&self) -> (b: bool)
        ensures
            b == self.optional(),
    ;

    /// Reads a token that may be absent. An absent token is an error
    /// (`ParseError::Missing`) unless the type is optional.
    fn parse(&self, item: Option<&str>) -> (r: Result<Self::Value, ParseError>)
        ensures
            result_view(r) == (match item {
                Some(s) => self.literal(s@),
                None => if self.optional() {
                    Ok(self.absent())
                } else {
                    Err(ParseError::Missing)
                },
            }),
    ;

    /// Reads a literal that is there, as a default given for a field is.
    fn parse_default(&self, s: &str) -> (r: Result<Self::Value, ParseError>)
        requires
            !self.optional(),
        ensures
            result_view(r) == self.literal(s@),
    ;

    /// The type's own default.
    fn type_default(&self) -> (v: Self::Value)
        requires
            !self.optional(),
        ensures
            v@ == self.zero(),
    ;
}

/// A set of commands: it renders their help listing and turns a line into
/// a command with its fields bound.
pub trait Replman {
    /// The commands, in the order of their declaration.
    spec fn commands(&self) -> Seq<CommandDefinitionView>;

    /// The help listing of all commands. It depends on the commands alone,
    /// so that every call gives the same text.
    fn help(&self) -> (text: String)
        ensures
            text@ == help_text(self.commands()),
    ;

    /// Parses a command from the parts of a line: the first part selects
    /// the command, and the parts after it are bound to its fields.
    fn parse(&self, parts: Vec<Result<&str, TokenizeError>>) -> (r: Result<CommandValue, Error>)
        ensures
            parses(self.commands(), parts_view(parts@), parsed_view(r)),
    ;

    /// Parses a command from a line.
    fn parse_str(&self, s: &str) -> (r: Result<CommandValue, Error>)
        ensures
            parses(self.commands(), tokens_of(s@), parsed_view(r)),
    {
        self.parse(split_string_unescape(s))
    }
}

} // verus!
