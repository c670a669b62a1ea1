use replman::declaration::{
    Attribute, Data, DataEnum, DeriveInput, Field, Fields, Lit, Meta, NestedMeta, Variant,
};
use replman::error::{Error, FieldLabel, ParseError};
use replman::registry::{derive_repl_cmd_impl, CommandValue, Registry};
use replman::value::{FieldType, FieldValue, Scalar, ScalarType};
use replman::Replman;

const HELP: usize = 0;
const QUIT: usize = 1;
const QUOTE: usize = 2;
const NAMED_ARGS: usize = 3;
const UNNAMED_ARGS: usize = 4;
const OPTIONAL_ARG: usize = 5;
const WITH_DEFAULT_VALUE: usize = 6;
const WITH_DEFAULT_EXPLICIT: usize = 7;
const STR: usize = 8;

fn doc(text: &str) -> Attribute {
    Attribute {
        path: "doc".to_string(),
        meta: Some(Meta::NameValue { path: "doc".to_string(), lit: Lit::Str(text.to_string()) }),
    }
}

fn replman_value(name: &str, value: &str) -> Attribute {
    Attribute {
        path: "replman".to_string(),
        meta: Some(Meta::List {
            path: "replman".to_string(),
            nested: vec![NestedMeta::NameValue {
                path: name.to_string(),
                lit: Lit::Str(value.to_string()),
            }],
        }),
    }
}

fn replman_word(name: &str) -> Attribute {
    Attribute {
        path: "replman".to_string(),
        meta: Some(Meta::List {
            path: "replman".to_string(),
            nested: vec![NestedMeta::Path(name.to_string())],
        }),
    }
}

fn plain(scalar: ScalarType) -> FieldType {
    FieldType { scalar, optional: false }
}

fn optional(scalar: ScalarType) -> FieldType {
    FieldType { scalar, optional: true }
}

fn named(name: &str, ty: FieldType, attrs: Vec<Attribute>) -> Field {
    Field { ident: Some(name.to_string()), attrs, ty }
}

fn unnamed(ty: FieldType) -> Field {
    Field { ident: None, attrs: vec![], ty }
}

fn variant(ident: &str, attrs: Vec<Attribute>, fields: Fields) -> Variant {
    Variant { ident: ident.to_string(), attrs, fields }
}

fn command() -> Registry {
    let input = DeriveInput {
        ident: "Command".to_string(),
        attrs: vec![replman_value("rename_all", "snake_case")],
        data: Data::Enum(DataEnum {
            variants: vec![
                variant("Help", vec![doc(" Displays help")], Fields::Unit),
                variant(
                    "Quit",
                    vec![
                        doc(" Exits the program"),
                        doc(""),
                        doc(" make sure to use it"),
                        replman_value("alias", "exit"),
                        replman_value("starts_with", "q"),
                    ],
                    Fields::Unit,
                ),
                variant(
                    "Quote",
                    vec![doc(" Just here to mess with quit starts_with")],
                    Fields::Unit,
                ),
                variant(
                    "NamedArgs",
                    vec![],
                    Fields::Named(vec![
                        named("left", plain(ScalarType::Usize), vec![]),
                        named("right", plain(ScalarType::Usize), vec![]),
                    ]),
                ),
                variant(
                    "UnnamedArgs",
                    vec![],
                    Fields::Unnamed(vec![
                        unnamed(plain(ScalarType::Usize)),
                        unnamed(plain(ScalarType::Usize)),
                    ]),
                ),
                variant(
                    "OptionalArg",
                    vec![],
                    Fields::Named(vec![
                        named("first_arg", plain(ScalarType::Text), vec![]),
                        named("optional_arg", optional(ScalarType::U32), vec![]),
                    ]),
                ),
                variant(
                    "WithDefaultValue",
                    vec![
                        doc(" A command with a single argument that has a default (type based) value"),
                        doc(" Lorem ipsum"),
                    ],
                    Fields::Named(vec![named(
                        "with_default_value",
                        plain(ScalarType::U32),
                        vec![replman_word("default")],
                    )]),
                ),
                variant(
                    "WithDefaultExplicit",
                    vec![doc(" A command with a single argument that has a default value")],
                    Fields::Named(vec![named(
                        "with_default_explicit",
                        plain(ScalarType::U32),
                        vec![replman_value("default", "42")],
                    )]),
                ),
                variant("Str", vec![], Fields::Unnamed(vec![unnamed(plain(ScalarType::Text))])),
            ],
        }),
    };
    derive_repl_cmd_impl(&input).unwrap()
}

fn unit(variant: usize) -> CommandValue {
    CommandValue { variant, fields: vec![] }
}

#[test]
fn help_test() {
    let help = "\
help - Displays help
quit|exit|q.. - Exits the program

                make sure to use it
quote - Just here to mess with quit starts_with
named_args <left> <right>
unnamed_args <0> <1>
optional_arg <first_arg> <optional_arg>
with_default_value <with_default_value> - A command with a single argument that has a default (type based) value
                                          Lorem ipsum
with_default_explicit <with_default_explicit> - A command with a single argument that has a default value
str <0>
";
    assert_eq!(help, command().help());
}

#[test]
fn help_is_the_same_on_every_call() {
    let registry = command();
    assert_eq!(registry.help(), registry.help());
}

#[test]
fn handles_aliases_q() {
    assert_eq!(unit(QUIT), command().parse_str("q").unwrap());
}

#[test]
fn handles_aliases_qu() {
    assert_eq!(unit(QUIT), command().parse_str("qu").unwrap());
}

#[test]
fn handles_aliases_qui() {
    assert_eq!(unit(QUIT), command().parse_str("qui").unwrap());
}

#[test]
fn handles_aliases_quit() {
    assert_eq!(unit(QUIT), command().parse_str("quit").unwrap());
}

#[test]
fn handles_aliases_exit() {
    assert_eq!(unit(QUIT), command().parse_str("exit").unwrap());
}

#[test]
fn starts_with_is_handled_last() {
    let cmd = command().parse_str("quote").unwrap();

    assert_eq!(unit(QUOTE), cmd);
}

#[test]
fn named_args() {
    let cmd = command().parse_str("named_args 1 2").unwrap();

    assert_eq!(
        CommandValue {
            variant: NAMED_ARGS,
            fields: vec![
                FieldValue::Plain(Scalar::Usize(1)),
                FieldValue::Plain(Scalar::Usize(2))
            ]
        },
        cmd
    );
}

#[test]
fn unnamed_args() {
    let cmd = command().parse_str("unnamed_args 1 2").unwrap();

    assert_eq!(
        CommandValue {
            variant: UNNAMED_ARGS,
            fields: vec![
                FieldValue::Plain(Scalar::Usize(1)),
                FieldValue::Plain(Scalar::Usize(2))
            ]
        },
        cmd
    );
}

#[test]
fn optional_arg_optional_not_set() {
    let cmd = command().parse_str("optional_arg Hello").unwrap();
    assert_eq!(
        CommandValue {
            variant: OPTIONAL_ARG,
            fields: vec![FieldValue::Plain(Scalar::Text("Hello".to_string())), FieldValue::Absent]
        },
        cmd
    );
}

#[test]
fn optional_arg_optional_set() {
    let cmd = command().parse_str("optional_arg World 1").unwrap();
    assert_eq!(
        CommandValue {
            variant: OPTIONAL_ARG,
            fields: vec![
                FieldValue::Plain(Scalar::Text("World".to_string())),
                FieldValue::Present(Scalar::U32(1))
            ]
        },
        cmd
    );
}

#[test]
fn with_default_value_default() {
    let cmd = command().parse_str("with_default_value").unwrap();
    assert_eq!(
        CommandValue { variant: WITH_DEFAULT_VALUE, fields: vec![FieldValue::Plain(Scalar::U32(0))] },
        cmd
    );
}

#[test]
fn with_default_value_default_override() {
    let cmd = command().parse_str("with_default_value 24").unwrap();
    assert_eq!(
        CommandValue { variant: WITH_DEFAULT_VALUE, fields: vec![FieldValue::Plain(Scalar::U32(24))] },
        cmd
    );
}

#[test]
fn with_default_explicit_default_explicit() {
    let cmd = command().parse_str("with_default_explicit").unwrap();
    assert_eq!(
        CommandValue {
            variant: WITH_DEFAULT_EXPLICIT,
            fields: vec![FieldValue::Plain(Scalar::U32(42))]
        },
        cmd
    );
}

#[test]
fn with_default_explicit_default_explicit_override() {
    let cmd = command().parse_str("with_default_explicit 24").unwrap();
    assert_eq!(
        CommandValue {
            variant: WITH_DEFAULT_EXPLICIT,
            fields: vec![FieldValue::Plain(Scalar::U32(24))]
        },
        cmd
    );
}

fn text(value: &str) -> CommandValue {
    CommandValue { variant: STR, fields: vec![FieldValue::Plain(Scalar::Text(value.to_string()))] }
}

#[test]
fn escape_strings_double_quotes() {
    assert_eq!(text("Hello, World!"), command().parse_str("str \"Hello, World!\"").unwrap());
}

#[test]
fn escape_strings_single_quotes() {
    assert_eq!(text("Hello, World!"), command().parse_str("str 'Hello, World!'").unwrap());
}

#[test]
fn escape_strings_single_quotes_within_double() {
    assert_eq!(text("'Hello', World!"), command().parse_str("str \"'Hello', World!\"").unwrap());
}

#[test]
fn escape_strings_empty_str() {
    assert_eq!(text(""), command().parse_str("str \"\"").unwrap());
}

#[test]
fn help_command_parses() {
    assert_eq!(unit(HELP), command().parse_str("help").unwrap());
}

#[test]
fn unrecognized_command_holds_the_word() {
    assert_eq!(
        Err(Error::UnrecognizedCommand("frobnicate".to_string())),
        command().parse_str("frobnicate 1 2")
    );
}

#[test]
fn line_without_tokens_is_unrecognized_by_the_empty_word() {
    assert_eq!(Err(Error::UnrecognizedCommand(String::new())), command().parse_str(""));
}

#[test]
fn required_field_without_token_is_missing() {
    assert_eq!(
        Err(Error::MissingField(FieldLabel::Name("right".to_string()))),
        command().parse_str("named_args 1")
    );
    assert_eq!(
        Err(Error::MissingField(FieldLabel::Position(0))),
        command().parse_str("unnamed_args")
    );
}

#[test]
fn field_that_does_not_parse_names_text_and_cause() {
    assert_eq!(
        Err(Error::FieldParseError {
            field: FieldLabel::Name("left".to_string()),
            raw_text: "one".to_string(),
            cause: ParseError::InvalidDigit
        }),
        command().parse_str("named_args one 2")
    );
    assert_eq!(
        Err(Error::FieldParseError {
            field: FieldLabel::Position(1),
            raw_text: "-2".to_string(),
            cause: ParseError::InvalidDigit
        }),
        command().parse_str("unnamed_args 1 -2")
    );
}

#[test]
fn invalid_quoting_in_the_command_word() {
    assert_eq!(
        Err(Error::InvalidQuoting { position: 3, found: 'b' }),
        command().parse_str("\"a\"b")
    );
}

#[test]
fn invalid_quoting_in_a_field() {
    assert_eq!(
        Err(Error::InvalidQuoting { position: 7, found: 'x' }),
        command().parse_str("str \"a\"x")
    );
}

#[test]
fn tokens_left_over_are_not_looked_at() {
    assert_eq!(unit(QUIT), command().parse_str("quit now \"or\"never").unwrap());
    assert_eq!(
        CommandValue {
            variant: NAMED_ARGS,
            fields: vec![
                FieldValue::Plain(Scalar::Usize(1)),
                FieldValue::Plain(Scalar::Usize(2))
            ]
        },
        command().parse_str("named_args 1 2 3 four").unwrap()
    );
}

#[test]
fn first_field_at_fault_is_reported() {
    assert_eq!(
        Err(Error::FieldParseError {
            field: FieldLabel::Name("left".to_string()),
            raw_text: "x".to_string(),
            cause: ParseError::InvalidDigit
        }),
        command().parse_str("named_args x \"a\"b")
    );
}
