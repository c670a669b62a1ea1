use replman::bind::{bind, bind_field};
use replman::common::EffectiveVariantName;
use replman::definition::{CommandDefinition, CommandFields, FieldSpec, NamedFieldSpec};
use replman::error::{Error, FieldLabel, ParseError};
use replman::field_attributes::FieldDefault;
use replman::parsing::{split_string_unescape, TokenizeError};
use replman::registry::{CommandValue, Registry};
use replman::resolve::{first_match, resolve, selects, Tier};
use replman::value::{FieldType, FieldValue, Scalar, ScalarType};
use replman::Replman;

fn command(name: &str, aliases: &[&str], prefixes: &[&str]) -> CommandDefinition {
    CommandDefinition {
        names: EffectiveVariantName {
            main_name: name.to_string(),
            aliases: aliases.iter().map(|s| s.to_string()).collect(),
            start_withs: prefixes.iter().map(|s| s.to_string()).collect(),
        },
        doc_lines: vec![],
        fields: CommandFields::Unit,
    }
}

fn quit_and_quote() -> Vec<CommandDefinition> {
    vec![command("quit", &["exit"], &["q"]), command("quote", &[], &[])]
}

fn u32_spec(optional: bool, default: FieldDefault) -> FieldSpec {
    FieldSpec { ty: FieldType { scalar: ScalarType::U32, optional }, default }
}

fn one_field(spec: FieldSpec) -> CommandDefinition {
    CommandDefinition {
        names: EffectiveVariantName { main_name: "f".to_string(), aliases: vec![], start_withs: vec![] },
        doc_lines: vec![],
        fields: CommandFields::NamedFields(vec![NamedFieldSpec { name: "value".to_string(), spec }]),
    }
}

#[test]
fn name_comes_before_a_prefix_of_an_earlier_command() {
    let defs = quit_and_quote();
    assert_eq!(resolve("quote", &defs), Ok(1));
}

#[test]
fn prefix_and_alias_select_quit() {
    let defs = quit_and_quote();
    for word in ["q", "qu", "qui", "quit", "exit", "quot", "quoted", "qqq"] {
        assert_eq!(resolve(word, &defs), Ok(0), "{:?}", word);
    }
}

#[test]
fn word_that_matches_no_tier() {
    let defs = quit_and_quote();
    for word in ["", "x", "Quit", "exi", "exits", " quit"] {
        assert_eq!(resolve(word, &defs), Err(Error::UnrecognizedCommand(word.to_string())), "{:?}", word);
    }
    assert_eq!(resolve("quit", &vec![]), Err(Error::UnrecognizedCommand("quit".to_string())));
}

#[test]
fn alias_comes_before_a_prefix_of_an_earlier_command() {
    let defs = vec![command("list", &[], &["s"]), command("show", &["sh"], &[])];
    assert_eq!(resolve("sh", &defs), Ok(1));
    assert_eq!(resolve("s", &defs), Ok(0));
    assert_eq!(resolve("sho", &defs), Ok(0));
    assert_eq!(resolve("show", &defs), Ok(1));
}

#[test]
fn name_comes_before_an_alias_of_an_earlier_command() {
    let defs = vec![command("list", &["show"], &[]), command("show", &[], &[])];
    assert_eq!(resolve("show", &defs), Ok(1));
}

#[test]
fn first_command_wins_within_a_tier() {
    let defs = vec![
        command("a", &["x"], &["pre"]),
        command("b", &["x", "y"], &["p"]),
        command("a", &["y"], &["prefix"]),
    ];
    assert_eq!(resolve("a", &defs), Ok(0));
    assert_eq!(resolve("x", &defs), Ok(0));
    assert_eq!(resolve("y", &defs), Ok(1));
    assert_eq!(resolve("prefix", &defs), Ok(0));
    assert_eq!(resolve("p", &defs), Ok(1));
}

#[test]
fn empty_prefix_selects_for_every_word() {
    let defs = vec![command("help", &[], &[]), command("run", &[], &[""])];
    assert_eq!(resolve("anything", &defs), Ok(1));
    assert_eq!(resolve("", &defs), Ok(1));
    assert_eq!(resolve("help", &defs), Ok(0));
}

#[test]
fn tiers_one_by_one() {
    let defs = quit_and_quote();
    assert!(selects(&defs[0], "quit", Tier::Name));
    assert!(!selects(&defs[0], "exit", Tier::Name));
    assert!(selects(&defs[0], "exit", Tier::Alias));
    assert!(!selects(&defs[0], "quit", Tier::Alias));
    assert!(selects(&defs[0], "quote", Tier::Prefix));
    assert!(!selects(&defs[1], "quote", Tier::Prefix));
    assert_eq!(first_match("quote", &defs, Tier::Name), Some(1));
    assert_eq!(first_match("quote", &defs, Tier::Alias), None);
    assert_eq!(first_match("quote", &defs, Tier::Prefix), Some(0));
}

#[test]
fn policies_without_a_token() {
    let u32_type = FieldType { scalar: ScalarType::U32, optional: false };
    assert_eq!(bind_field(&u32_type, &FieldDefault::Required, None), Err(ParseError::Missing));
    assert_eq!(
        bind_field(&u32_type, &FieldDefault::TypeDefault, None),
        Ok(FieldValue::Plain(Scalar::U32(0)))
    );
    assert_eq!(
        bind_field(&u32_type, &FieldDefault::ExplicitDefault("42".to_string()), None),
        Ok(FieldValue::Plain(Scalar::U32(42)))
    );
    assert_eq!(
        bind_field(&u32_type, &FieldDefault::ExplicitDefault("x".to_string()), None),
        Err(ParseError::InvalidDigit)
    );
}

#[test]
fn token_counts_whatever_the_policy() {
    let u32_type = FieldType { scalar: ScalarType::U32, optional: false };
    for default in [
        FieldDefault::Required,
        FieldDefault::TypeDefault,
        FieldDefault::ExplicitDefault("42".to_string()),
    ] {
        assert_eq!(bind_field(&u32_type, &default, Some("24")), Ok(FieldValue::Plain(Scalar::U32(24))));
        assert_eq!(bind_field(&u32_type, &default, Some("x")), Err(ParseError::InvalidDigit));
    }
}

#[test]
fn optional_field_is_present_or_absent() {
    let optional = FieldType { scalar: ScalarType::U32, optional: true };
    assert_eq!(
        bind_field(&optional, &FieldDefault::Required, Some("5")),
        Ok(FieldValue::Present(Scalar::U32(5)))
    );
    assert_eq!(bind_field(&optional, &FieldDefault::Required, None), Ok(FieldValue::Absent));
    assert_eq!(bind_field(&optional, &FieldDefault::Required, Some("x")), Err(ParseError::InvalidDigit));
}

#[test]
fn bind_reports_the_literal_of_a_default_that_does_not_parse() {
    let def = one_field(u32_spec(false, FieldDefault::ExplicitDefault("forty".to_string())));
    assert_eq!(
        bind(&def, &vec![]),
        Err(Error::FieldParseError {
            field: FieldLabel::Name("value".to_string()),
            raw_text: "forty".to_string(),
            cause: ParseError::InvalidDigit
        })
    );
    assert_eq!(bind(&def, &vec![Ok("7")]), Ok(vec![FieldValue::Plain(Scalar::U32(7))]));
}

#[test]
fn bind_takes_one_token_for_each_field() {
    let def = CommandDefinition {
        names: EffectiveVariantName { main_name: "f".to_string(), aliases: vec![], start_withs: vec![] },
        doc_lines: vec![],
        fields: CommandFields::PositionalFields(vec![
            FieldSpec { ty: FieldType { scalar: ScalarType::Text, optional: false }, default: FieldDefault::Required },
            u32_spec(false, FieldDefault::TypeDefault),
            u32_spec(true, FieldDefault::Required),
        ]),
    };
    assert_eq!(
        bind(&def, &vec![Ok("a"), Ok("1"), Ok("2"), Ok("left over")]),
        Ok(vec![
            FieldValue::Plain(Scalar::Text("a".to_string())),
            FieldValue::Plain(Scalar::U32(1)),
            FieldValue::Present(Scalar::U32(2)),
        ])
    );
    assert_eq!(
        bind(&def, &vec![Ok("a")]),
        Ok(vec![
            FieldValue::Plain(Scalar::Text("a".to_string())),
            FieldValue::Plain(Scalar::U32(0)),
            FieldValue::Absent,
        ])
    );
    assert_eq!(bind(&def, &vec![]), Err(Error::MissingField(FieldLabel::Position(0))));
    assert_eq!(
        bind(&def, &vec![Ok("a"), Err(TokenizeError::InvalidQuoting { position: 9, found: 'x' })]),
        Err(Error::InvalidQuoting { position: 9, found: 'x' })
    );
    assert_eq!(
        bind(&def, &vec![Ok("a"), Ok("1"), Ok("-")]),
        Err(Error::FieldParseError {
            field: FieldLabel::Position(2),
            raw_text: "-".to_string(),
            cause: ParseError::InvalidDigit
        })
    );
}

#[test]
fn unit_command_takes_no_tokens() {
    let def = command("quit", &[], &[]);
    assert_eq!(bind(&def, &vec![]), Ok(vec![]));
    assert_eq!(
        bind(&def, &vec![Ok("x"), Err(TokenizeError::InvalidQuoting { position: 9, found: 'x' })]),
        Ok(vec![])
    );
}

#[test]
fn parse_takes_the_parts_of_a_line() {
    let registry = Registry::new(vec![
        command("quit", &["exit"], &["q"]),
        one_field(u32_spec(false, FieldDefault::ExplicitDefault("42".to_string()))),
    ])
    .unwrap();
    assert_eq!(registry.parse(vec![Ok("f"), Ok("7")]), Ok(CommandValue { variant: 1, fields: vec![FieldValue::Plain(Scalar::U32(7))] }));
    assert_eq!(registry.parse(vec![Ok("f")]), Ok(CommandValue { variant: 1, fields: vec![FieldValue::Plain(Scalar::U32(42))] }));
    assert_eq!(registry.parse(split_string_unescape("exit")), Ok(CommandValue { variant: 0, fields: vec![] }));
    assert_eq!(registry.parse(vec![]), Err(Error::UnrecognizedCommand(String::new())));
    assert_eq!(
        registry.parse(vec![Err(TokenizeError::InvalidQuoting { position: 2, found: 'x' })]),
        Err(Error::InvalidQuoting { position: 2, found: 'x' })
    );
    assert_eq!(registry.parse(vec![Ok("nope"), Ok("7")]), Err(Error::UnrecognizedCommand("nope".to_string())));
    assert_eq!(registry.parse(vec![Ok("")]), Err(Error::UnrecognizedCommand(String::new())));
}

#[test]
fn parsing_twice_gives_the_same() {
    let registry = Registry::new(quit_and_quote()).unwrap();
    for line in ["quit", "quote", "q x", "nope", "\"a\"b", ""] {
        assert_eq!(registry.parse_str(line), registry.parse_str(line), "{:?}", line);
    }
}
