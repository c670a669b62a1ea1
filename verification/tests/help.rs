use replman::common::EffectiveVariantName;
use replman::definition::{CommandDefinition, CommandFields, FieldSpec, NamedFieldSpec};
use replman::field_attributes::FieldDefault;
use replman::help_method::{header_line, push_block, render_help};
use replman::value::{FieldType, ScalarType};

fn spec() -> FieldSpec {
    FieldSpec { ty: FieldType { scalar: ScalarType::Text, optional: false }, default: FieldDefault::Required }
}

fn command(name: &str, docs: &[&str], fields: CommandFields) -> CommandDefinition {
    CommandDefinition {
        names: EffectiveVariantName { main_name: name.to_string(), aliases: vec![], start_withs: vec![] },
        doc_lines: docs.iter().map(|s| s.to_string()).collect(),
        fields,
    }
}

fn block(def: &CommandDefinition) -> String {
    let mut out = String::new();
    push_block(&mut out, def);
    out
}

#[test]
fn command_without_docs_has_its_header_alone() {
    assert_eq!(block(&command("quote", &[], CommandFields::Unit)), "quote\n");
}

#[test]
fn first_doc_line_follows_the_header() {
    assert_eq!(block(&command("help", &["Displays help"], CommandFields::Unit)), "help - Displays help\n");
}

#[test]
fn second_doc_line_is_aligned_under_the_first() {
    let text = block(&command("go", &["first", "second"], CommandFields::Unit));
    assert_eq!(text, "go - first\n     second\n");
    let lines: Vec<&str> = text.lines().collect();
    assert_eq!(lines.len(), 2);
    assert_eq!(lines[0].find("first"), lines[1].find("second"));
    assert_eq!(lines[1].find("second"), Some("go".len() + 3));
}

#[test]
fn blank_doc_line_is_an_empty_line() {
    assert_eq!(block(&command("go", &["first", "", "third"], CommandFields::Unit)), "go - first\n\n     third\n");
    assert_eq!(
        block(&command("go", &["first", " \t\u{a0}", "third"], CommandFields::Unit)),
        "go - first\n\n     third\n"
    );
}

#[test]
fn blank_first_doc_line_stays_on_the_header_line() {
    assert_eq!(block(&command("go", &[""], CommandFields::Unit)), "go - \n");
    assert_eq!(block(&command("go", &["", "second"], CommandFields::Unit)), "go - \n     second\n");
}

#[test]
fn doc_lines_keep_their_own_indentation() {
    assert_eq!(
        block(&command("go", &["first", "  indented"], CommandFields::Unit)),
        "go - first\n       indented\n"
    );
}

#[test]
fn alignment_counts_characters() {
    assert_eq!(block(&command("größe", &["first", "second"], CommandFields::Unit)), "größe - first\n        second\n");
}

#[test]
fn fields_are_shown_by_name_or_position() {
    let named = CommandFields::NamedFields(vec![
        NamedFieldSpec { name: "left".to_string(), spec: spec() },
        NamedFieldSpec { name: "right".to_string(), spec: spec() },
    ]);
    assert_eq!(header_line(&command("add", &[], named)), "add <left> <right>");
    let positional = CommandFields::PositionalFields((0..12).map(|_| spec()).collect());
    assert_eq!(
        header_line(&command("many", &[], positional)),
        "many <0> <1> <2> <3> <4> <5> <6> <7> <8> <9> <10> <11>"
    );
    assert_eq!(header_line(&command("none", &[], CommandFields::NamedFields(vec![]))), "none");
}

#[test]
fn header_with_fields_sets_the_alignment() {
    let named = CommandFields::NamedFields(vec![NamedFieldSpec { name: "x".to_string(), spec: spec() }]);
    assert_eq!(block(&command("f", &["one", "two"], named)), "f <x> - one\n        two\n");
}

#[test]
fn aliases_and_prefixes_are_part_of_the_header() {
    let def = CommandDefinition {
        names: EffectiveVariantName {
            main_name: "quit".to_string(),
            aliases: vec!["exit".to_string()],
            start_withs: vec!["q".to_string()],
        },
        doc_lines: vec!["Exits the program".to_string(), "".to_string(), "make sure to use it".to_string()],
        fields: CommandFields::Unit,
    };
    assert_eq!(header_line(&def), "quit|exit|q..");
    assert_eq!(block(&def), "quit|exit|q.. - Exits the program\n\n                make sure to use it\n");
}

#[test]
fn blocks_are_appended() {
    let mut out = "before\n".to_string();
    push_block(&mut out, &command("a", &["x"], CommandFields::Unit));
    push_block(&mut out, &command("b", &[], CommandFields::Unit));
    assert_eq!(out, "before\na - x\nb\n");
}

#[test]
fn listing_holds_the_blocks_in_order() {
    let defs = vec![
        command("b", &["second letter"], CommandFields::Unit),
        command("a", &[], CommandFields::Unit),
        command("c", &["third", "letter"], CommandFields::Unit),
    ];
    assert_eq!(render_help(&defs), "b - second letter\na\nc - third\n    letter\n");
    assert_eq!(render_help(&defs), render_help(&defs));
    assert_eq!(render_help(&vec![]), "");
}
