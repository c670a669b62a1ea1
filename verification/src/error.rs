//! What can go wrong: when the commands are registered, and when a line is
//! parsed.

use vstd::prelude::*;

verus! {

/// Why a literal does not denote a value of the type asked for.
#[derive(Debug, Clone, Copy, PartialEq, Eq)]
pub enum ParseError {
    /// There is no token, and the type needs one.
    Missing,
    /// The literal for an integer is empty.
    Empty,
    /// The literal for an integer holds a character that is no decimal digit
    /// where a digit must stand, a sign alone or a misplaced sign included.
    InvalidDigit,
    /// The integer is greater than the greatest value of the type.
    PosOverflow,
    /// The integer is less than the least value of the type.
    NegOverflow,
    /// The literal for a truth value is neither `true` nor `false`.
    InvalidBool,
    /// The literal for a character is empty.
    EmptyChar,
    /// The literal for a character holds more than one character.
    TooManyChars,
}

impl ParseError {
    /// The message for the error, in the words of the standard library for
    /// the like error.
    pub open spec fn message_text(self) -> Seq<char> {
        match self {
            ParseError::Missing => "Missing field"@,
            ParseError::Empty => "cannot parse integer from empty string"@,
            ParseError::InvalidDigit => "invalid digit found in string"@,
            ParseError::PosOverflow => "number too large to fit in target type"@,
            ParseError::NegOverflow => "number too small to fit in target type"@,
            ParseError::InvalidBool => "provided string was not `true` or `false`"@,
            ParseError::EmptyChar => "cannot parse char from empty string"@,
            ParseError::TooManyChars => "too many characters in string"@,
        }
    }

    /// The message for the error.
    pub fn message(&self) -> (r: &'static str)
        ensures
            r@ == self.message_text(),
    {
        match self {
            ParseError::Missing => "Missing field",
            ParseError::Empty => "cannot parse integer from empty string",
            ParseError::InvalidDigit => "invalid digit found in string",
            ParseError::PosOverflow => "number too large to fit in target type",
            ParseError::NegOverflow => "number too small to fit in target type",
            ParseError::InvalidBool => "provided string was not `true` or `false`",
            ParseError::EmptyChar => "cannot parse char from empty string",
            ParseError::TooManyChars => "too many characters in string",
        }
    }
}

/// Why a set of command declarations is refused. Variants and fields are
/// named by their position in the declaration, counted from 0.
#[derive(Debug, Clone, Copy, PartialEq, Eq)]
pub enum InvalidConfiguration {
    /// The declaration is no enum.
    NotAnEnum,
    /// The arguments of a `doc` or `replman` attribute have no form that can
    /// be read.
    InvalidArguments,
    /// A `replman` attribute is no list of entries in parentheses.
    InvalidFirstLevelMeta,
    /// An entry of a `replman` attribute has a form that is not supported
    /// where it stands.
    Unsupported,
    /// The value of an entry of a `replman` attribute is no string literal.
    InvalidLiteral,
    /// A `doc` attribute is not of the form `doc = ..`.
    InvalidDocAttribute,
    /// The value of a `doc` attribute is no string literal.
    InvalidDocLiteral,
    /// `rename_all` names no supported case convention.
    UnsupportedCase,
    /// A case convention is to be applied to the name of this variant, which
    /// holds a character outside ASCII.
    NonAsciiName { variant: usize },
    /// This field stands among named fields and has no name.
    MissingFieldName { variant: usize, field: usize },
    /// This command has the same name as an earlier one.
    DuplicateName { variant: usize },
    /// This field has an optional type and a default.
    DefaultOnOptional { variant: usize, field: usize },
    /// The literal given as this field's default denotes no value of the
    /// field's type.
    InvalidDefault { variant: usize, field: usize, cause: ParseError },
}

/// How a field is identified: by its name, or by its position among the
/// fields of its command, counted from 0.
#[derive(Debug, Clone, PartialEq, Eq)]
pub enum FieldLabel {
    Name(String),
    Position(usize),
}

/// A label with its name as a sequence of characters.
pub enum FieldLabelView {
    Name(Seq<char>),
    Position(usize),
}

impl View for FieldLabel {
    type V = FieldLabelView;

    open spec fn view(&self) -> FieldLabelView {
        match *self {
            FieldLabel::Name(name) => FieldLabelView::Name(name@),
            FieldLabel::Position(i) => FieldLabelView::Position(i),
        }
    }
}

/// Why a line gives no command.
#[derive(Debug, Clone, PartialEq, Eq)]
pub enum Error {
    /// A character other than a space directly follows a closing quote.
    /// `position` counts characters from the start of the line.
    InvalidQuoting { position: usize, found: char },
    /// The first token of the line selects no command. It holds that token;
    /// the empty text where the line has no token.
    UnrecognizedCommand(String),
    /// A field that needs a token got none.
    MissingField(FieldLabel),
    /// The text given for a field denotes no value of the field's type.
    FieldParseError { field: FieldLabel, raw_text: String, cause: ParseError },
}

/// An error with its texts as sequences of characters.
pub enum ErrorView {
    InvalidQuoting { position: usize, found: char },
    UnrecognizedCommand(Seq<char>),
    MissingField(FieldLabelView),
    FieldParseError { field: FieldLabelView, raw_text: Seq<char>, cause: ParseError },
}

impl View for Error {
    type V = ErrorView;

    open spec fn view(&self) -> ErrorView {
        match *self {
            Error::InvalidQuoting { position, found } => ErrorView::InvalidQuoting { position, found },
            Error::UnrecognizedCommand(word) => ErrorView::UnrecognizedCommand(word@),
            Error::MissingField(field) => ErrorView::MissingField(field@),
            Error::FieldParseError { field, raw_text, cause } => ErrorView::FieldParseError {
                field: field@,
                raw_text: raw_text@,
                cause,
            },
        }
    }
}

/// The message for an error: what was found after a closing quote, the word
/// that selects no command, that a field is missing, or why a text denotes
/// no value.
pub open spec fn message_text(e: ErrorView) -> Seq<char> {
    match e {
        ErrorView::InvalidQuoting { position, found } =>
            "Invalid command fragment, expected a space or end of string, found '"@.push(found).push(
                '\'',
            ),
        ErrorView::UnrecognizedCommand(word) => "unrecognized command '"@ + word + seq!['\''],
        ErrorView::MissingField(field) => ParseError::Missing.message_text(),
        ErrorView::FieldParseError { field, raw_text, cause } => cause.message_text(),
    }
}

impl Error {
    /// The message for the error, for a reader.
    pub fn message(&self) -> (r: String)
        ensures
            r@ == message_text(self@),
    {
        match self {
            Error::InvalidQuoting { position, found } => {
                let mut r = "Invalid command fragment, expected a space or end of string, found '".to_owned();
                r.push(*found);
                r.push('\'');
                r
            },
            Error::UnrecognizedCommand(word) => {
                let mut r = "unrecognized command '".to_owned();
                r.append(word.as_str());
                r.push('\'');
                assert(r@ == "unrecognized command '"@ + word@ + seq!['\'']);
                r
            },
            Error::MissingField(_) => ParseError::Missing.message().to_owned(),
            Error::FieldParseError { field, raw_text, cause } => cause.message().to_owned(),
        }
    }
}

} // verus!
