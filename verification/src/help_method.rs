//! The help listing: one block of text for each command.

use crate::common::shown_name;
use crate::declaration::{fold_results, lemma_fold_error, Attribute, DataEnum};
use crate::enum_attributes::EnumAttributes;
use crate::parse_method::{declared_definitions, variant_matches};
use crate::definition::{definitions_view, CommandDefinition, CommandDefinitionView, FieldSpecView};
use crate::error::{FieldLabel, FieldLabelView, InvalidConfiguration};
use crate::number::{decimal_digits, push_decimal};
use crate::text::{blank, concat, is_blank, same_text, texts};
use crate::variant_attributes::{doc_line, extract_doc_line};
use vstd::prelude::*;

verus! {

/// The doc lines after one attribute: a `doc` attribute adds its line, and
/// another attribute is passed over.
pub open spec fn docs_attr(current: Seq<Seq<char>>, attr: Attribute) -> Result<
    Seq<Seq<char>>,
    InvalidConfiguration,
> {
    if attr.path@ == "doc"@ {
        match doc_line(attr) {
            Ok(line) => Ok(current.push(line)),
            Err(e) => Err(e),
        }
    } else {
        Ok(current)
    }
}

/// `docs_attr` as a step of a fold.
pub open spec fn docs_attrs() -> spec_fn(Seq<Seq<char>>, Attribute) -> Result<
    Seq<Seq<char>>,
    InvalidConfiguration,
> {
    |c: Seq<Seq<char>>, a: Attribute| docs_attr(c, a)
}

/// The doc lines that attributes hold, in the order of the attributes.
pub open spec fn declared_docs(attrs: Seq<Attribute>) -> Result<Seq<Seq<char>>, InvalidConfiguration> {
    fold_results(attrs, attrs.len() as int, Seq::empty(), docs_attrs())
}

/// Reads the doc lines from attributes.
pub fn extract_docs_from_attrs(attrs: &Vec<Attribute>) -> (r: Result<Vec<String>, InvalidConfiguration>)
    ensures
        match r {
            Ok(lines) => declared_docs(attrs@) == Ok::<Seq<Seq<char>>, InvalidConfiguration>(
                texts(lines@),
            ),
            Err(e) => declared_docs(attrs@) == Err::<Seq<Seq<char>>, InvalidConfiguration>(e),
        },
{
    let mut ret: Vec<String> = Vec::new();
    assert(texts(ret@) == Seq::<Seq<char>>::empty());
    let mut i: usize = 0;
    while i < attrs.len()
        invariant
            i <= attrs.len(),
            fold_results(attrs@, i as int, Seq::empty(), docs_attrs()) == Ok::<
                Seq<Seq<char>>,
                InvalidConfiguration,
            >(texts(ret@)),
        decreases attrs.len() - i,
    {
        let attr = &attrs[i];
        if same_text(attr.path.as_str(), "doc") {
            match extract_doc_line(attr, &mut ret) {
                Ok(()) => {},
                Err(e) => {
                    proof {
                        lemma_fold_error(attrs@, i + 1, attrs@.len() as int, Seq::empty(), docs_attrs());
                    }
                    return Err(e);
                },
            }
        }
        i = i + 1;
    }
    Ok(ret)
}

/// How a field is named in the help listing: by its name, or by its
/// position in decimal digits.
pub open spec fn label_text(label: FieldLabelView) -> Seq<char> {
    match label {
        FieldLabelView::Name(name) => name,
        FieldLabelView::Position(i) => decimal_digits(i as nat),
    }
}

/// A space and the label in angle brackets, for each field.
pub open spec fn field_parts(fields: Seq<FieldSpecView>) -> spec_fn(int) -> Seq<char> {
    |j: int| seq![' ', '<'] + label_text(fields[j].label) + seq!['>']
}

/// The header of a command's block: the names as they are shown, and then
/// each field.
pub open spec fn header(def: CommandDefinitionView) -> Seq<char> {
    shown_name(def.names) + concat(def.fields.len() as int, field_parts(def.fields))
}

/// `n` spaces.
pub open spec fn spaces(n: nat) -> Seq<char> {
    Seq::new(n, |i: int| ' ')
}

/// A doc line after the first, as a line of its own: indented by `indent`
/// spaces, or empty where the doc line is blank.
pub open spec fn continuation(line: Seq<char>, indent: nat) -> Seq<char> {
    if blank(line) {
        seq!['\n']
    } else {
        spaces(indent) + line + seq!['\n']
    }
}

/// The continuation line for each doc line after the first.
pub open spec fn continuation_parts(doc_lines: Seq<Seq<char>>, indent: nat) -> spec_fn(int) -> Seq<char> {
    |k: int| continuation(doc_lines[k + 1], indent)
}

/// The block of a command: the header alone on its line where the command
/// has no doc text; else the header, ` - ` and the first doc line, and then
/// each further doc line on a line of its own that begins in the column
/// where the first doc line began.
pub open spec fn block(def: CommandDefinitionView) -> Seq<char> {
    let head = header(def);
    if def.doc_lines.len() == 0 {
        head + seq!['\n']
    } else {
        head + seq![' ', '-', ' '] + def.doc_lines[0] + seq!['\n'] + concat(
            def.doc_lines.len() - 1,
            continuation_parts(def.doc_lines, head.len() + 3),
        )
    }
}

/// The block of each command.
pub open spec fn block_parts(defs: Seq<CommandDefinitionView>) -> spec_fn(int) -> Seq<char> {
    |i: int| block(defs[i])
}

/// The help listing: the blocks of the commands, in the order of the
/// commands.
pub open spec fn help_text(defs: Seq<CommandDefinitionView>) -> Seq<char> {
    concat(defs.len() as int, block_parts(defs))
}

/// The header of a command's block.
pub fn header_line(def: &CommandDefinition) -> (out: String)
    ensures
        out@ == header(def@),
{
    let mut out = def.names.to_string();
    let ghost shown = out@;
    let n = def.fields.len();
    let mut j: usize = 0;
    while j < n
        invariant
            j <= n,
            n == def@.fields.len(),
            shown == shown_name(def@.names),
            out@ == shown + concat(j as int, field_parts(def@.fields)),
        decreases n - j,
    {
        proof {
            reveal_strlit(" <");
            reveal_strlit(">");
        }
        let ghost before = out@;
        out.append(" <");
        match def.fields.label_at(j) {
            FieldLabel::Name(name) => {
                out.append(name.as_str());
            },
            FieldLabel::Position(i) => {
                push_decimal(&mut out, i);
            },
        }
        out.append(">");
        assert(out@ == before + field_parts(def@.fields)(j as int));
        j = j + 1;
    }
    out
}

/// Appends `n` spaces.
fn push_spaces(out: &mut String, n: usize)
    ensures
        final(out)@ == old(out)@ + spaces(n as nat),
{
    let mut i: usize = 0;
    assert(out@ == old(out)@ + spaces(0));
    while i < n
        invariant
            i <= n,
            out@ == old(out)@ + spaces(i as nat),
        decreases n - i,
    {
        proof {
            reveal_strlit(" ");
        }
        out.append(" ");
        assert(out@ == old(out)@ + spaces((i + 1) as nat));
        i = i + 1;
    }
}

/// Appends the block of a command.
pub fn push_block(out: &mut String, def: &CommandDefinition)
    ensures
        final(out)@ == old(out)@ + block(def@),
{
    proof {
        reveal_strlit("\n");
        reveal_strlit(" - ");
        reveal_strlit("   ");
    }
    let head = header_line(def);
    out.append(head.as_str());
    if def.doc_lines.len() == 0 {
        out.append("\n");
        assert(out@ == old(out)@ + block(def@));
        return ;
    }
    out.append(" - ");
    out.append(def.doc_lines[0].as_str());
    out.append("\n");
    let mut indent = String::new();
    push_spaces(&mut indent, head.as_str().unicode_len());
    indent.append("   ");
    assert(indent@ == spaces(header(def@).len() + 3));
    let ghost first = out@;
    assert(first == old(out)@ + header(def@) + seq![' ', '-', ' '] + def@.doc_lines[0] + seq!['\n']);
    let ghost parts = continuation_parts(def@.doc_lines, header(def@).len() + 3);
    let mut k: usize = 1;
    while k < def.doc_lines.len()
        invariant
            1 <= k <= def.doc_lines.len(),
            indent@ == spaces(header(def@).len() + 3),
            parts == continuation_parts(def@.doc_lines, header(def@).len() + 3),
            out@ == first + concat(k - 1, parts),
        decreases def.doc_lines.len() - k,
    {
        proof {
            reveal_strlit("\n");
        }
        let ghost before = out@;
        let line = def.doc_lines[k].as_str();
        if !is_blank(line) {
            out.append(indent.as_str());
            out.append(line);
        }
        out.append("\n");
        assert(out@ == before + parts(k - 1));
        k = k + 1;
    }
    assert(out@ == old(out)@ + block(def@));
}

/// The help listing of the commands, in their order.
pub fn render_help(definitions: &Vec<CommandDefinition>) -> (out: String)
    ensures
        out@ == help_text(definitions_view(definitions@)),
{
    let mut out = String::new();
    let mut i: usize = 0;
    assert(out@ == concat(0, block_parts(definitions_view(definitions@))));
    while i < definitions.len()
        invariant
            i <= definitions.len(),
            out@ == concat(i as int, block_parts(definitions_view(definitions@))),
        decreases definitions.len() - i,
    {
        push_block(&mut out, &definitions[i]);
        i = i + 1;
    }
    out
}

/// The help listing of the commands that an enum declares. The commands
/// are read but not registered: the text is there for commands that a
/// registry would refuse, too.
pub fn derive_help_method(data_enum: &DataEnum, attrs: &EnumAttributes) -> (r: Result<
    String,
    InvalidConfiguration,
>)
    ensures
        match r {
            Ok(text) => declared_definitions(data_enum.variants@, attrs.rename_all) matches Ok(defs)
                && text@ == help_text(defs),
            Err(e) => declared_definitions(data_enum.variants@, attrs.rename_all) == Err::<
                Seq<CommandDefinitionView>,
                InvalidConfiguration,
            >(e),
        },
{
    match variant_matches(data_enum, attrs) {
        Ok(definitions) => Ok(render_help(&definitions)),
        Err(e) => Err(e),
    }
}

/// The block of a command with two doc lines has two lines: the header
/// with the first doc line, and the second doc line, which begins in the
/// column where the first began, three characters after the end of the
/// header. Where the second doc line is blank, the second line is empty.
pub proof fn lemma_block_with_two_doc_lines(def: CommandDefinitionView)
    requires
        def.doc_lines.len() == 2,
    ensures
        !blank(def.doc_lines[1]) ==> block(def) == header(def) + seq![' ', '-', ' '] + def.doc_lines[0]
            + seq!['\n'] + spaces(header(def).len() + 3) + def.doc_lines[1] + seq!['\n'],
        blank(def.doc_lines[1]) ==> block(def) == header(def) + seq![' ', '-', ' '] + def.doc_lines[0]
            + seq!['\n'] + seq!['\n'],
{
    let parts = continuation_parts(def.doc_lines, header(def).len() + 3);
    assert(concat(1, parts) == concat(0, parts) + parts(0));
    assert(concat(0, parts) == Seq::<char>::empty());
    assert(Seq::<char>::empty() + parts(0) == parts(0));
    let first = header(def) + seq![' ', '-', ' '] + def.doc_lines[0] + seq!['\n'];
    if blank(def.doc_lines[1]) {
        assert(block(def) == first + seq!['\n']);
    } else {
        assert(first + (spaces(header(def).len() + 3) + def.doc_lines[1] + seq!['\n']) == first + spaces(
            header(def).len() + 3,
        ) + def.doc_lines[1] + seq!['\n']);
    }
}

/// The help listing is the same on every call for the same commands: two
/// texts that `help` may return for them are equal.
pub proof fn lemma_help_is_idempotent(defs: Seq<CommandDefinitionView>, first: Seq<char>, second: Seq<char>)
    requires
        first == help_text(defs),
        second == help_text(defs),
    ensures
        first == second,
{
}

/// The help listing holds the blocks in the order of the commands: the
/// listing of commands with one more command at the end is the listing of
/// the commands and then that command's block.
pub proof fn lemma_help_appends_blocks(defs: Seq<CommandDefinitionView>, def: CommandDefinitionView)
    ensures
        help_text(defs.push(def)) == help_text(defs) + block(def),
{
    let longer = defs.push(def);
    lemma_concat_same(defs.len() as int, block_parts(defs), block_parts(longer));
    assert(longer[defs.len() as int] == def);
}

/// Parts that are equal below `n` give the same text up to `n`.
pub proof fn lemma_concat_same(n: int, a: spec_fn(int) -> Seq<char>, b: spec_fn(int) -> Seq<char>)
    requires
        forall|i: int| 0 <= i < n ==> #[trigger] a(i) == b(i),
    ensures
        concat(n, a) == concat(n, b),
    decreases n,
{
    if n > 0 {
        lemma_concat_same(n - 1, a, b);
    }
}

} // verus!
