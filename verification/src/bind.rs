//! Binding tokens to the fields of a command, one token for each field.

use crate::definition::{CommandDefinition, FieldSpecView};
use crate::error::{Error, ErrorView, ParseError};
use crate::field_attributes::{FieldDefault, FieldDefaultView};
use crate::parsing::{parts_view, TokenizeError};
use crate::value::{field_literal, field_zero, result_view, FieldValue, FieldValueView, ScalarView};
use crate::{token_text, ReplmanParse};
use vstd::prelude::*;

verus! {

/// What a field is bound to: a token that is present is read as a literal of
/// the field's type, whatever default the field has; without a token, the
/// field takes its default, as a literal or as the type's own, and a field
/// without a default is absent where its type is optional and missing where
/// it is not.
pub open spec fn bound<P: ReplmanParse>(parser: &P, default: FieldDefaultView, token: Option<Seq<char>>) -> Result<
    <P::Value as View>::V,
    ParseError,
> {
    match token {
        Some(text) => parser.literal(text),
        None => match default {
            FieldDefaultView::Required => if parser.optional() {
                Ok(parser.absent())
            } else {
                Err(ParseError::Missing)
            },
            FieldDefaultView::TypeDefault => Ok(parser.zero()),
            FieldDefaultView::ExplicitDefault(literal) => parser.literal(literal),
        },
    }
}

/// Binds one field of type `parser` to its token, if it has one. A field of
/// an optional type has no default.
pub fn bind_field<P: ReplmanParse>(parser: &P, default: &FieldDefault, token: Option<&str>) -> (r: Result<
    P::Value,
    ParseError,
>)
    requires
        !(default@ is Required) ==> !parser.optional(),
    ensures
        result_view(r) == bound(parser, default@, token_text(token)),
{
    match default {
        FieldDefault::Required => parser.parse(token),
        FieldDefault::ExplicitDefault(literal) => match token {
            Some(s) => parser.parse_default(s),
            None => parser.parse_default(literal.as_str()),
        },
        FieldDefault::TypeDefault => match token {
            Some(s) => parser.parse_default(s),
            None => Ok(parser.type_default()),
        },
    }
}

/// The token for the field at position `j`: the part at that position where
/// there is one, which may be the error that ended the line's tokens.
pub open spec fn token_at(tokens: Seq<Result<Seq<char>, TokenizeError>>, j: int) -> Result<
    Option<Seq<char>>,
    TokenizeError,
> {
    if 0 <= j < tokens.len() {
        match tokens[j] {
            Ok(text) => Ok(Some(text)),
            Err(e) => Err(e),
        }
    } else {
        Ok(None)
    }
}

/// What one field gives for its token: its value, or the error that names
/// the field. A text that denotes no value of the field's type is reported
/// with that text, be it the token or the literal of the default.
pub open spec fn field_outcome(field: FieldSpecView, token: Result<Option<Seq<char>>, TokenizeError>) -> Result<
    FieldValueView,
    ErrorView,
> {
    match token {
        Err(TokenizeError::InvalidQuoting { position, found }) => Err(
            ErrorView::InvalidQuoting { position, found },
        ),
        Ok(Some(text)) => match field_literal(field.ty, text) {
            Ok(v) => Ok(v),
            Err(cause) => Err(ErrorView::FieldParseError { field: field.label, raw_text: text, cause }),
        },
        Ok(None) => match field.default {
            FieldDefaultView::Required => if field.ty.optional {
                Ok(FieldValueView::Absent)
            } else {
                Err(ErrorView::MissingField(field.label))
            },
            FieldDefaultView::TypeDefault => Ok(field_zero(field.ty)),
            FieldDefaultView::ExplicitDefault(literal) => match field_literal(field.ty, literal) {
                Ok(v) => Ok(v),
                Err(cause) => Err(
                    ErrorView::FieldParseError { field: field.label, raw_text: literal, cause },
                ),
            },
        },
    }
}

/// `r` is what binding `tokens` to `fields` gives: the values of all fields
/// in order where every field gives one, and else the error of the first
/// field that gives none. Tokens beyond the last field are not looked at.
pub open spec fn binds(
    fields: Seq<FieldSpecView>,
    tokens: Seq<Result<Seq<char>, TokenizeError>>,
    r: Result<Seq<FieldValueView>, ErrorView>,
) -> bool {
    match r {
        Ok(values) => {
            &&& values.len() == fields.len()
            &&& forall|j: int|
                0 <= j < fields.len() ==> field_outcome(#[trigger] fields[j], token_at(tokens, j)) == Ok::<
                    FieldValueView,
                    ErrorView,
                >(values[j])
        },
        Err(e) => exists|j: int|
            {
                &&& 0 <= j < fields.len()
                &&& field_outcome(#[trigger] fields[j], token_at(tokens, j)) == Err::<
                    FieldValueView,
                    ErrorView,
                >(e)
                &&& forall|k: int|
                    0 <= k < j ==> field_outcome(#[trigger] fields[k], token_at(tokens, k)) is Ok
            },
    }
}

/// No field has both an optional type and a default.
pub open spec fn defaults_allowed(fields: Seq<FieldSpecView>) -> bool {
    forall|j: int|
        0 <= j < fields.len() ==> ((#[trigger] fields[j]).ty.optional ==> fields[j].default is Required)
}

/// The values of fields as the contracts speak of them.
pub open spec fn values_view(values: Seq<FieldValue>) -> Seq<FieldValueView> {
    Seq::new(values.len(), |j: int| values[j]@)
}

/// What `bind` returns, as the contracts speak of it.
pub open spec fn bound_view(r: Result<Vec<FieldValue>, Error>) -> Result<Seq<FieldValueView>, ErrorView> {
    match r {
        Ok(values) => Ok(values_view(values@)),
        Err(e) => Err(e@),
    }
}

/// Binds the tokens that follow the command word to the fields of the
/// command, in the order of the fields: the first token to the first field,
/// and so on. It returns the values of the fields, or the error of the first
/// field that has none; tokens that are left over are passed over.
pub fn bind(definition: &CommandDefinition, remaining_tokens: &Vec<Result<&str, TokenizeError>>) -> (r:
    Result<Vec<FieldValue>, Error>)
    requires
        defaults_allowed(definition@.fields),
    ensures
        binds(definition@.fields, parts_view(remaining_tokens@), bound_view(r)),
{
    let fields = &definition.fields;
    let n = fields.len();
    let mut values: Vec<FieldValue> = Vec::new();
    let mut j: usize = 0;
    while j < n
        invariant
            j <= n,
            n == definition@.fields.len(),
            fields == &definition.fields,
            defaults_allowed(definition@.fields),
            values@.len() == j,
            forall|k: int|
                0 <= k < j ==> field_outcome(
                    #[trigger] definition@.fields[k],
                    token_at(parts_view(remaining_tokens@), k),
                ) == Ok::<FieldValueView, ErrorView>(values@[k]@),
        decreases n - j,
    {
        let ghost field = definition@.fields[j as int];
        let ghost token_spec = token_at(parts_view(remaining_tokens@), j as int);
        let token: Option<&str> = if j < remaining_tokens.len() {
            match remaining_tokens[j] {
                Ok(text) => Some(text),
                Err(TokenizeError::InvalidQuoting { position, found }) => {
                    let r = Err(Error::InvalidQuoting { position, found });
                    assert(field_outcome(field, token_spec) == Err::<FieldValueView, ErrorView>(
                        ErrorView::InvalidQuoting { position, found },
                    ));
                    return r;
                },
            }
        } else {
            None
        };
        assert(token_spec == Ok::<Option<Seq<char>>, TokenizeError>(token_text(token)));
        let spec = fields.spec_at(j);
        match bind_field(&spec.ty, &spec.default, token) {
            Ok(v) => {
                assert(field_outcome(field, token_spec) == Ok::<FieldValueView, ErrorView>(v@));
                values.push(v);
            },
            Err(cause) => {
                let label = fields.label_at(j);
                let r = match token {
                    Some(text) => Err(
                        Error::FieldParseError { field: label, raw_text: text.to_owned(), cause },
                    ),
                    None => match &spec.default {
                        FieldDefault::ExplicitDefault(literal) => Err(
                            Error::FieldParseError { field: label, raw_text: literal.clone(), cause },
                        ),
                        _ => Err(Error::MissingField(label)),
                    },
                };
                assert(field_outcome(field, token_spec) == Err::<FieldValueView, ErrorView>(
                    r.unwrap_err()@,
                ));
                return r;
            },
        }
        j = j + 1;
    }
    assert(values_view(values@).len() == definition@.fields.len());
    Ok(values)
}

/// A line's tokens bind to the fields of a command in one way only.
pub proof fn lemma_binds_unique(
    fields: Seq<FieldSpecView>,
    tokens: Seq<Result<Seq<char>, TokenizeError>>,
    a: Result<Seq<FieldValueView>, ErrorView>,
    b: Result<Seq<FieldValueView>, ErrorView>,
)
    requires
        binds(fields, tokens, a),
        binds(fields, tokens, b),
    ensures
        a == b,
{
    match (a, b) {
        (Ok(x), Ok(y)) => {
            assert forall|j: int| 0 <= j < x.len() implies x[j] == y[j] by {
                assert(field_outcome(fields[j], token_at(tokens, j)) == Ok::<FieldValueView, ErrorView>(
                    x[j],
                ));
            }
            assert(x =~= y);
        },
        (Err(x), Err(y)) => {
            let i = choose|j: int|
                {
                    &&& 0 <= j < fields.len()
                    &&& field_outcome(#[trigger] fields[j], token_at(tokens, j)) == Err::<
                        FieldValueView,
                        ErrorView,
                    >(x)
                    &&& forall|k: int|
                        0 <= k < j ==> field_outcome(#[trigger] fields[k], token_at(tokens, k)) is Ok
                };
            let j = choose|j: int|
                {
                    &&& 0 <= j < fields.len()
                    &&& field_outcome(#[trigger] fields[j], token_at(tokens, j)) == Err::<
                        FieldValueView,
                        ErrorView,
                    >(y)
                    &&& forall|k: int|
                        0 <= k < j ==> field_outcome(#[trigger] fields[k], token_at(tokens, k)) is Ok
                };
            assert(i == j);
        },
        (Ok(x), Err(y)) => {
            assert(false);
        },
        (Err(x), Ok(y)) => {
            assert(false);
        },
    }
}

/// A field that needs a token and has no default is missing when it gets no
/// token.
pub proof fn lemma_required_without_token(field: FieldSpecView)
    requires
        field.default is Required,
        !field.ty.optional,
    ensures
        field_outcome(field, Ok(None)) == Err::<FieldValueView, ErrorView>(
            ErrorView::MissingField(field.label),
        ),
{
}

/// A field with its type's own default takes the zero or empty value of its
/// type when it gets no token; nothing is read for it.
pub proof fn lemma_type_default_without_token(field: FieldSpecView)
    requires
        field.default is TypeDefault,
    ensures
        field_outcome(field, Ok(None)) == Ok::<FieldValueView, ErrorView>(
            FieldValueView::Plain(crate::value::scalar_zero(field.ty.scalar)),
        ),
{
}

/// A field with a literal as its default gives, when it gets no token, what
/// the literal would give as its token.
pub proof fn lemma_explicit_default_without_token(field: FieldSpecView, literal: Seq<char>)
    requires
        field.default == FieldDefaultView::ExplicitDefault(literal),
    ensures
        field_outcome(field, Ok(None)) == field_outcome(field, Ok(Some(literal))),
{
}

/// A token that is present is read in the same way whatever default the
/// field declares.
pub proof fn lemma_token_overrides_default(
    field: FieldSpecView,
    other_default: FieldDefaultView,
    text: Seq<char>,
)
    ensures
        field_outcome(field, Ok(Some(text))) == field_outcome(
            FieldSpecView { default: other_default, ..field },
            Ok(Some(text)),
        ),
{
}

/// A field of an optional type is absent without a token, and with a token
/// it holds, as present, the value that the token denotes.
pub proof fn lemma_optional_field(field: FieldSpecView, text: Seq<char>, value: ScalarView)
    requires
        field.ty.optional,
        field.default is Required,
    ensures
        field_outcome(field, Ok(None)) == Ok::<FieldValueView, ErrorView>(FieldValueView::Absent),
        crate::value::scalar_literal(field.ty.scalar, text) == Ok::<ScalarView, ParseError>(value)
            ==> field_outcome(field, Ok(Some(text))) == Ok::<FieldValueView, ErrorView>(
            FieldValueView::Present(value),
        ),
{
}

} // verus!
