//! The types that a field can have and the values that a field can hold.

use crate::error::ParseError;
use crate::number::{integer, parse_signed, parse_unsigned};
use crate::parsing::char_at;
use crate::text::same_text;
use crate::ReplmanParse;
use vstd::prelude::*;

verus! {

/// A type whose values are written as one token.
#[derive(Debug, Clone, Copy, PartialEq, Eq)]
pub enum ScalarType {
    Bool,
    Char,
    I8,
    I16,
    I32,
    I64,
    I128,
    Isize,
    U8,
    U16,
    U32,
    U64,
    U128,
    Usize,
    /// Any text; the token itself is the value.
    Text,
}

/// A value of a scalar type.
#[derive(Debug, Clone, PartialEq, Eq)]
pub enum Scalar {
    Bool(bool),
    Char(char),
    I8(i8),
    I16(i16),
    I32(i32),
    I64(i64),
    I128(i128),
    Isize(isize),
    U8(u8),
    U16(u16),
    U32(u32),
    U64(u64),
    U128(u128),
    Usize(usize),
    Text(String),
}

/// A scalar value with its text as a sequence of characters.
pub enum ScalarView {
    Bool(bool),
    Char(char),
    I8(i8),
    I16(i16),
    I32(i32),
    I64(i64),
    I128(i128),
    Isize(isize),
    U8(u8),
    U16(u16),
    U32(u32),
    U64(u64),
    U128(u128),
    Usize(usize),
    Text(Seq<char>),
}

impl View for Scalar {
    type V = ScalarView;

    open spec fn view(&self) -> ScalarView {
        match *self {
            Scalar::Bool(v) => ScalarView::Bool(v),
            Scalar::Char(v) => ScalarView::Char(v),
            Scalar::I8(v) => ScalarView::I8(v),
            Scalar::I16(v) => ScalarView::I16(v),
            Scalar::I32(v) => ScalarView::I32(v),
            Scalar::I64(v) => ScalarView::I64(v),
            Scalar::I128(v) => ScalarView::I128(v),
            Scalar::Isize(v) => ScalarView::Isize(v),
            Scalar::U8(v) => ScalarView::U8(v),
            Scalar::U16(v) => ScalarView::U16(v),
            Scalar::U32(v) => ScalarView::U32(v),
            Scalar::U64(v) => ScalarView::U64(v),
            Scalar::U128(v) => ScalarView::U128(v),
            Scalar::Usize(v) => ScalarView::Usize(v),
            Scalar::Text(v) => ScalarView::Text(v@),
        }
    }
}

/// The scalar type that a name stands for, each under the name that Rust
/// gives it, and `String` for text.
pub open spec fn scalar_type_named(name: Seq<char>) -> Option<ScalarType> {
    if name == "bool"@ {
        Some(ScalarType::Bool)
    } else if name == "char"@ {
        Some(ScalarType::Char)
    } else if name == "i8"@ {
        Some(ScalarType::I8)
    } else if name == "i16"@ {
        Some(ScalarType::I16)
    } else if name == "i32"@ {
        Some(ScalarType::I32)
    } else if name == "i64"@ {
        Some(ScalarType::I64)
    } else if name == "i128"@ {
        Some(ScalarType::I128)
    } else if name == "isize"@ {
        Some(ScalarType::Isize)
    } else if name == "u8"@ {
        Some(ScalarType::U8)
    } else if name == "u16"@ {
        Some(ScalarType::U16)
    } else if name == "u32"@ {
        Some(ScalarType::U32)
    } else if name == "u64"@ {
        Some(ScalarType::U64)
    } else if name == "u128"@ {
        Some(ScalarType::U128)
    } else if name == "usize"@ {
        Some(ScalarType::Usize)
    } else if name == "String"@ {
        Some(ScalarType::Text)
    } else {
        None
    }
}

impl ScalarType {
    /// The scalar type that a name stands for.
    pub fn from_name(name: &str) -> (r: Option<ScalarType>)
        ensures
            r == scalar_type_named(name@),
    {
        if same_text(name, "bool") {
            Some(ScalarType::Bool)
        } else if same_text(name, "char") {
            Some(ScalarType::Char)
        } else if same_text(name, "i8") {
            Some(ScalarType::I8)
        } else if same_text(name, "i16") {
            Some(ScalarType::I16)
        } else if same_text(name, "i32") {
            Some(ScalarType::I32)
        } else if same_text(name, "i64") {
            Some(ScalarType::I64)
        } else if same_text(name, "i128") {
            Some(ScalarType::I128)
        } else if same_text(name, "isize") {
            Some(ScalarType::Isize)
        } else if same_text(name, "u8") {
            Some(ScalarType::U8)
        } else if same_text(name, "u16") {
            Some(ScalarType::U16)
        } else if same_text(name, "u32") {
            Some(ScalarType::U32)
        } else if same_text(name, "u64") {
            Some(ScalarType::U64)
        } else if same_text(name, "u128") {
            Some(ScalarType::U128)
        } else if same_text(name, "usize") {
            Some(ScalarType::Usize)
        } else if same_text(name, "String") {
            Some(ScalarType::Text)
        } else {
            None
        }
    }
}

/// The least and the greatest value of an integer type; `None` for a type
/// that is no integer type.
pub open spec fn integer_range(ty: ScalarType) -> Option<(int, int)> {
    match ty {
        ScalarType::I8 => Some((i8::MIN as int, i8::MAX as int)),
        ScalarType::I16 => Some((i16::MIN as int, i16::MAX as int)),
        ScalarType::I32 => Some((i32::MIN as int, i32::MAX as int)),
        ScalarType::I64 => Some((i64::MIN as int, i64::MAX as int)),
        ScalarType::I128 => Some((i128::MIN as int, i128::MAX as int)),
        ScalarType::Isize => Some((isize::MIN as int, isize::MAX as int)),
        ScalarType::U8 => Some((0, u8::MAX as int)),
        ScalarType::U16 => Some((0, u16::MAX as int)),
        ScalarType::U32 => Some((0, u32::MAX as int)),
        ScalarType::U64 => Some((0, u64::MAX as int)),
        ScalarType::U128 => Some((0, u128::MAX as int)),
        ScalarType::Usize => Some((0, usize::MAX as int)),
        _ => None,
    }
}

/// The value of an integer type that holds the number `v`.
pub open spec fn integer_scalar(ty: ScalarType, v: int) -> ScalarView {
    match ty {
        ScalarType::I8 => ScalarView::I8(v as i8),
        ScalarType::I16 => ScalarView::I16(v as i16),
        ScalarType::I32 => ScalarView::I32(v as i32),
        ScalarType::I64 => ScalarView::I64(v as i64),
        ScalarType::I128 => ScalarView::I128(v as i128),
        ScalarType::Isize => ScalarView::Isize(v as isize),
        ScalarType::U8 => ScalarView::U8(v as u8),
        ScalarType::U16 => ScalarView::U16(v as u16),
        ScalarType::U32 => ScalarView::U32(v as u32),
        ScalarType::U64 => ScalarView::U64(v as u64),
        ScalarType::U128 => ScalarView::U128(v as u128),
        _ => ScalarView::Usize(v as usize),
    }
}

/// The value that a literal denotes in a scalar type, or why it denotes
/// none. A truth value is written `true` or `false`; a character as itself;
/// an integer as an optional sign and decimal digits, within the range of
/// its type; any text denotes itself.
pub open spec fn scalar_literal(ty: ScalarType, text: Seq<char>) -> Result<ScalarView, ParseError> {
    match ty {
        ScalarType::Bool => if text == seq!['t', 'r', 'u', 'e'] {
            Ok(ScalarView::Bool(true))
        } else if text == seq!['f', 'a', 'l', 's', 'e'] {
            Ok(ScalarView::Bool(false))
        } else {
            Err(ParseError::InvalidBool)
        },
        ScalarType::Char => if text.len() == 1 {
            Ok(ScalarView::Char(char_at(text, 0)))
        } else if text.len() == 0 {
            Err(ParseError::EmptyChar)
        } else {
            Err(ParseError::TooManyChars)
        },
        ScalarType::Text => Ok(ScalarView::Text(text)),
        _ => {
            let (lo, hi) = integer_range(ty).unwrap();
            match integer(text, lo, hi) {
                Ok(v) => Ok(integer_scalar(ty, v)),
                Err(e) => Err(e),
            }
        },
    }
}

/// The zero or empty value of a scalar type: `false`, the character with
/// code 0, the number 0, the empty text.
pub open spec fn scalar_zero(ty: ScalarType) -> ScalarView {
    match ty {
        ScalarType::Bool => ScalarView::Bool(false),
        ScalarType::Char => ScalarView::Char('\0'),
        ScalarType::Text => ScalarView::Text(Seq::empty()),
        _ => integer_scalar(ty, 0),
    }
}

/// A result with the value in it taken by its view.
pub open spec fn result_view<T: View, E>(r: Result<T, E>) -> Result<T::V, E> {
    match r {
        Ok(v) => Ok(v@),
        Err(e) => Err(e),
    }
}

/// Reads a literal as a value of an unsigned integer type with greatest
/// value `hi`.
fn unsigned_literal(ty: ScalarType, s: &str, hi: u128) -> (r: Result<u128, ParseError>)
    requires
        integer_range(ty) == Some((0int, hi as int)),
    ensures
        match r {
            Ok(v) => v <= hi && scalar_literal(ty, s@) == Ok::<ScalarView, ParseError>(
                integer_scalar(ty, v as int),
            ),
            Err(e) => scalar_literal(ty, s@) == Err::<ScalarView, ParseError>(e),
        },
{
    parse_unsigned(s, hi)
}

/// Reads a literal as a value of a signed integer type with least value `lo`
/// and greatest value `hi`.
fn signed_literal(ty: ScalarType, s: &str, lo: i128, hi: i128) -> (r: Result<i128, ParseError>)
    requires
        lo < 0 <= hi,
        integer_range(ty) == Some((lo as int, hi as int)),
    ensures
        match r {
            Ok(v) => lo <= v <= hi && scalar_literal(ty, s@) == Ok::<ScalarView, ParseError>(
                integer_scalar(ty, v as int),
            ),
            Err(e) => scalar_literal(ty, s@) == Err::<ScalarView, ParseError>(e),
        },
{
    parse_signed(s, lo, hi)
}

/// Reads a literal as a value of the scalar type `ty`.
pub fn parse_scalar(ty: ScalarType, s: &str) -> (r: Result<Scalar, ParseError>)
    ensures
        result_view(r) == scalar_literal(ty, s@),
{
    match ty {
        ScalarType::Bool => {
            proof {
                reveal_strlit("true");
                reveal_strlit("false");
            }
            assert("true"@ == seq!['t', 'r', 'u', 'e']);
            assert("false"@ == seq!['f', 'a', 'l', 's', 'e']);
            if same_text(s, "true") {
                Ok(Scalar::Bool(true))
            } else if same_text(s, "false") {
                Ok(Scalar::Bool(false))
            } else {
                Err(ParseError::InvalidBool)
            }
        },
        ScalarType::Char => {
            let n = s.unicode_len();
            if n == 1 {
                Ok(Scalar::Char(s.get_char(0)))
            } else if n == 0 {
                Err(ParseError::EmptyChar)
            } else {
                Err(ParseError::TooManyChars)
            }
        },
        ScalarType::Text => Ok(Scalar::Text(s.to_owned())),
        ScalarType::I8 => match signed_literal(ty, s, i8::MIN as i128, i8::MAX as i128) {
            Ok(v) => Ok(Scalar::I8(v as i8)),
            Err(e) => Err(e),
        },
        ScalarType::I16 => match signed_literal(ty, s, i16::MIN as i128, i16::MAX as i128) {
            Ok(v) => Ok(Scalar::I16(v as i16)),
            Err(e) => Err(e),
        },
        ScalarType::I32 => match signed_literal(ty, s, i32::MIN as i128, i32::MAX as i128) {
            Ok(v) => Ok(Scalar::I32(v as i32)),
            Err(e) => Err(e),
        },
        ScalarType::I64 => match signed_literal(ty, s, i64::MIN as i128, i64::MAX as i128) {
            Ok(v) => Ok(Scalar::I64(v as i64)),
            Err(e) => Err(e),
        },
        ScalarType::I128 => match signed_literal(ty, s, i128::MIN, i128::MAX) {
            Ok(v) => Ok(Scalar::I128(v)),
            Err(e) => Err(e),
        },
        ScalarType::Isize => match signed_literal(ty, s, isize::MIN as i128, isize::MAX as i128) {
            Ok(v) => Ok(Scalar::Isize(v as isize)),
            Err(e) => Err(e),
        },
        ScalarType::U8 => match unsigned_literal(ty, s, u8::MAX as u128) {
            Ok(v) => Ok(Scalar::U8(v as u8)),
            Err(e) => Err(e),
        },
        ScalarType::U16 => match unsigned_literal(ty, s, u16::MAX as u128) {
            Ok(v) => Ok(Scalar::U16(v as u16)),
            Err(e) => Err(e),
        },
        ScalarType::U32 => match unsigned_literal(ty, s, u32::MAX as u128) {
            Ok(v) => Ok(Scalar::U32(v as u32)),
            Err(e) => Err(e),
        },
        ScalarType::U64 => match unsigned_literal(ty, s, u64::MAX as u128) {
            Ok(v) => Ok(Scalar::U64(v as u64)),
            Err(e) => Err(e),
        },
        ScalarType::U128 => match unsigned_literal(ty, s, u128::MAX) {
            Ok(v) => Ok(Scalar::U128(v)),
            Err(e) => Err(e),
        },
        ScalarType::Usize => match unsigned_literal(ty, s, usize::MAX as u128) {
            Ok(v) => Ok(Scalar::Usize(v as usize)),
            Err(e) => Err(e),
        },
    }
}

/// The zero or empty value of the scalar type `ty`.
pub fn zero_scalar(ty: ScalarType) -> (v: Scalar)
    ensures
        v@ == scalar_zero(ty),
{
    match ty {
        ScalarType::Bool => Scalar::Bool(false),
        ScalarType::Char => Scalar::Char('\0'),
        ScalarType::Text => Scalar::Text(String::new()),
        ScalarType::I8 => Scalar::I8(0),
        ScalarType::I16 => Scalar::I16(0),
        ScalarType::I32 => Scalar::I32(0),
        ScalarType::I64 => Scalar::I64(0),
        ScalarType::I128 => Scalar::I128(0),
        ScalarType::Isize => Scalar::Isize(0),
        ScalarType::U8 => Scalar::U8(0),
        ScalarType::U16 => Scalar::U16(0),
        ScalarType::U32 => Scalar::U32(0),
        ScalarType::U64 => Scalar::U64(0),
        ScalarType::U128 => Scalar::U128(0),
        ScalarType::Usize => Scalar::Usize(0),
    }
}

/// The type of a field: a scalar type, or the optional form of one.
#[derive(Debug, Clone, Copy, PartialEq, Eq)]
pub struct FieldType {
    pub scalar: ScalarType,
    pub optional: bool,
}

/// The value of a field.
#[derive(Debug, Clone, PartialEq, Eq)]
pub enum FieldValue {
    /// The value of a field whose type is not optional.
    Plain(Scalar),
    /// The value of an optional field that got a token.
    Present(Scalar),
    /// The value of an optional field that got no token.
    Absent,
}

/// The value of a field with its text as a sequence of characters.
pub enum FieldValueView {
    Plain(ScalarView),
    Present(ScalarView),
    Absent,
}

impl View for FieldValue {
    type V = FieldValueView;

    open spec fn view(&self) -> FieldValueView {
        match *self {
            FieldValue::Plain(v) => FieldValueView::Plain(v@),
            FieldValue::Present(v) => FieldValueView::Present(v@),
            FieldValue::Absent => FieldValueView::Absent,
        }
    }
}

/// The value that a token denotes in a field of type `ty`, or why it denotes
/// none: what it denotes in the scalar type, as present where the type is
/// optional.
pub open spec fn field_literal(ty: FieldType, text: Seq<char>) -> Result<FieldValueView, ParseError> {
    match scalar_literal(ty.scalar, text) {
        Ok(v) => Ok(
            if ty.optional {
                FieldValueView::Present(v)
            } else {
                FieldValueView::Plain(v)
            },
        ),
        Err(e) => Err(e),
    }
}

/// The own default of a field type: the zero or empty value of its scalar
/// type.
pub open spec fn field_zero(ty: FieldType) -> FieldValueView {
    FieldValueView::Plain(scalar_zero(ty.scalar))
}

impl ReplmanParse for FieldType {
    type Value = FieldValue;

    open spec fn optional(&self) -> bool {
        self.optional
    }

    open spec fn literal(&self, text: Seq<char>) -> Result<FieldValueView, ParseError> {
        field_literal(*self, text)
    }

    open spec fn absent(&self) -> FieldValueView {
        FieldValueView::Absent
    }

    open spec fn zero(&self) -> FieldValueView {
        field_zero(*self)
    }

    fn is_optional(&self) -> (b: bool) {
        self.optional
    }

    fn parse(&self, item: Option<&str>) -> (r: Result<FieldValue, ParseError>) {
        match item {
            Some(s) => match parse_scalar(self.scalar, s) {
                Ok(v) => if self.optional {
                    Ok(FieldValue::Present(v))
                } else {
                    Ok(FieldValue::Plain(v))
                },
                Err(e) => Err(e),
            },
            None => if self.optional {
                Ok(FieldValue::Absent)
            } else {
                Err(ParseError::Missing)
            },
        }
    }

    fn parse_default(&self, s: &str) -> (r: Result<FieldValue, ParseError>) {
        match parse_scalar(self.scalar, s) {
            Ok(v) => Ok(FieldValue::Plain(v)),
            Err(e) => Err(e),
        }
    }

    fn type_default(&self) -> (v: FieldValue) {
        FieldValue::Plain(zero_scalar(self.scalar))
    }
}

} // verus!
