//! The registry: the commands in the order of their declaration, checked
//! once when it is made and never changed after.

use crate::bind::{bind, binds, defaults_allowed, lemma_binds_unique, values_view};
use crate::declaration::{Data, DeriveInput};
use crate::definition::{definitions_view, CommandDefinition, CommandDefinitionView, FieldSpecView};
use crate::enum_attributes::{declared_case, EnumAttributes};
use crate::error::{Error, ErrorView, InvalidConfiguration};
use crate::field_attributes::{FieldDefault, FieldDefaultView};
use crate::help_method::render_help;
use crate::parse_method::declared_definitions;
use crate::parsing::{parts_view, TokenizeError};
use crate::resolve::{lemma_resolves_unique, none_in_tier, resolve, resolves, Tier};
use crate::text::same_text;
use crate::value::{field_literal, FieldValue, FieldValueView};
use crate::{Replman, ReplmanParse};
use vstd::prelude::*;

verus! {

/// What is wrong with the field at position `j` of the command at position
/// `variant`, if anything: a default on a field of an optional type, or a
/// literal given as default that denotes no value of the field's type.
pub open spec fn field_fault(field: FieldSpecView, variant: int, j: int) -> Option<InvalidConfiguration> {
    match field.default {
        FieldDefaultView::Required => None,
        FieldDefaultView::TypeDefault => if field.ty.optional {
            Some(InvalidConfiguration::DefaultOnOptional { variant: variant as usize, field: j as usize })
        } else {
            None
        },
        FieldDefaultView::ExplicitDefault(literal) => if field.ty.optional {
            Some(InvalidConfiguration::DefaultOnOptional { variant: variant as usize, field: j as usize })
        } else {
            match field_literal(field.ty, literal) {
                Ok(_) => None,
                Err(cause) => Some(
                    InvalidConfiguration::InvalidDefault {
                        variant: variant as usize,
                        field: j as usize,
                        cause,
                    },
                ),
            }
        },
    }
}

/// No field of the command is at fault.
pub open spec fn no_field_fault(fields: Seq<FieldSpecView>, variant: int) -> bool {
    forall|j: int| 0 <= j < fields.len() ==> field_fault(#[trigger] fields[j], variant, j) is None
}

/// `e` is the fault of the first field of the command that is at fault.
pub open spec fn first_field_fault(fields: Seq<FieldSpecView>, variant: int, e: InvalidConfiguration) -> bool {
    exists|j: int|
        {
            &&& 0 <= j < fields.len()
            &&& field_fault(#[trigger] fields[j], variant, j) == Some(e)
            &&& forall|k: int| 0 <= k < j ==> field_fault(#[trigger] fields[k], variant, k) is None
        }
}

/// An earlier command has the name of the command at position `i`.
pub open spec fn name_taken(defs: Seq<CommandDefinitionView>, i: int) -> bool {
    exists|k: int| 0 <= k < i && (#[trigger] defs[k]).names.main_name == defs[i].names.main_name
}

/// Nothing is wrong with the command at position `i`.
pub open spec fn valid_definition(defs: Seq<CommandDefinitionView>, i: int) -> bool {
    !name_taken(defs, i) && no_field_fault(defs[i].fields, i)
}

/// `e` is what is wrong with the command at position `i`: that its name is
/// taken, or else the fault of its first field that is at fault.
pub open spec fn definition_fault(defs: Seq<CommandDefinitionView>, i: int, e: InvalidConfiguration) -> bool {
    if name_taken(defs, i) {
        e == (InvalidConfiguration::DuplicateName { variant: i as usize })
    } else {
        first_field_fault(defs[i].fields, i, e)
    }
}

/// The commands can be registered: no two have the same name, no field has
/// both an optional type and a default, and every literal given as a
/// default denotes a value of its field's type.
pub open spec fn valid(defs: Seq<CommandDefinitionView>) -> bool {
    forall|i: int| 0 <= i < defs.len() ==> valid_definition(defs, i)
}

/// `e` is what is wrong with the first command that is at fault.
pub open spec fn refused(defs: Seq<CommandDefinitionView>, e: InvalidConfiguration) -> bool {
    exists|i: int|
        {
            &&& 0 <= i < defs.len()
            &&& #[trigger] definition_fault(defs, i, e)
            &&& forall|k: int| 0 <= k < i ==> #[trigger] valid_definition(defs, k)
        }
}

/// A command with its fields bound.
#[derive(Debug, Clone, PartialEq, Eq)]
pub struct CommandValue {
    /// The position of the command among the commands of the registry.
    pub variant: usize,
    /// The values of the command's fields, in the order of the fields.
    pub fields: Vec<FieldValue>,
}

/// A bound command as the contracts speak of it.
pub struct CommandValueView {
    pub variant: usize,
    pub fields: Seq<FieldValueView>,
}

impl View for CommandValue {
    type V = CommandValueView;

    open spec fn view(&self) -> CommandValueView {
        CommandValueView { variant: self.variant, fields: values_view(self.fields@) }
    }
}

/// What `parse` returns, as the contracts speak of it.
pub open spec fn parsed_view(r: Result<CommandValue, Error>) -> Result<CommandValueView, ErrorView> {
    match r {
        Ok(value) => Ok(value@),
        Err(e) => Err(e@),
    }
}

/// `r` is what the parts of a line give among the commands `defs`. The
/// first part is the command word: an error in its place is the result, and
/// so is, where it selects no command, the error that holds it. Else the
/// parts after it are bound to the fields of the command that it selects. A
/// line without parts selects no command, by the empty word.
pub open spec fn parses(
    defs: Seq<CommandDefinitionView>,
    parts: Seq<Result<Seq<char>, TokenizeError>>,
    r: Result<CommandValueView, ErrorView>,
) -> bool {
    if parts.len() == 0 {
        r == Err::<CommandValueView, ErrorView>(ErrorView::UnrecognizedCommand(Seq::empty()))
    } else {
        match parts[0] {
            Err(TokenizeError::InvalidQuoting { position, found }) => r == Err::<
                CommandValueView,
                ErrorView,
            >(ErrorView::InvalidQuoting { position, found }),
            Ok(word) => exists|choice: Option<int>|
                {
                    &&& #[trigger] resolves(defs, word, choice)
                    &&& match choice {
                        None => r == Err::<CommandValueView, ErrorView>(
                            ErrorView::UnrecognizedCommand(word),
                        ),
                        Some(i) => match r {
                            Ok(value) => value.variant == i && binds(
                                defs[i].fields,
                                parts.skip(1),
                                Ok(value.fields),
                            ),
                            Err(e) => binds(defs[i].fields, parts.skip(1), Err(e)),
                        },
                    }
                },
        }
    }
}

/// `r` is what registering gives for commands that were read as `defs`: the
/// fault found in reading them; else the fault of the first command that
/// cannot be registered; else the registry that holds the commands.
pub open spec fn registered(
    defs: Result<Seq<CommandDefinitionView>, InvalidConfiguration>,
    r: Result<Registry, InvalidConfiguration>,
) -> bool {
    match defs {
        Err(e) => r matches Err(found) && found == e,
        Ok(defs) => match r {
            Ok(registry) => registry@ == defs && valid(defs),
            Err(e) => refused(defs, e),
        },
    }
}

/// `r` is what a declaration gives when its commands are registered. The
/// attributes of the enum are read first; then the declaration must be an
/// enum; then its variants are read and registered.
pub open spec fn derived(input: DeriveInput, r: Result<Registry, InvalidConfiguration>) -> bool {
    match declared_case(input.attrs@) {
        Err(e) => r matches Err(found) && found == e,
        Ok(rename_all) => match input.data {
            Data::Enum(data_enum) => registered(
                declared_definitions(data_enum.variants@, rename_all),
                r,
            ),
            _ => r matches Err(found) && found == InvalidConfiguration::NotAnEnum,
        },
    }
}

/// The commands of an interpreter, in the order of their declaration.
pub struct Registry {
    definitions: Vec<CommandDefinition>,
}

impl View for Registry {
    type V = Seq<CommandDefinitionView>;

    closed spec fn view(&self) -> Seq<CommandDefinitionView> {
        definitions_view(self.definitions@)
    }
}

/// Whether an earlier command has the name of the command at position `i`.
fn name_is_taken(definitions: &Vec<CommandDefinition>, i: usize) -> (r: bool)
    requires
        i < definitions.len(),
    ensures
        r == name_taken(definitions_view(definitions@), i as int),
{
    let name = definitions[i].names.main_name.as_str();
    let mut k: usize = 0;
    while k < i
        invariant
            k <= i < definitions.len(),
            name@ == definitions_view(definitions@)[i as int].names.main_name,
            forall|m: int|
                0 <= m < k ==> (#[trigger] definitions_view(definitions@)[m]).names.main_name != name@,
        decreases i - k,
    {
        if same_text(definitions[k].names.main_name.as_str(), name) {
            assert(definitions_view(definitions@)[k as int].names.main_name == name@);
            return true;
        }
        k = k + 1;
    }
    false
}

/// Looks for the first field of a command that is at fault.
fn check_fields(def: &CommandDefinition, variant: usize) -> (r: Result<(), InvalidConfiguration>)
    ensures
        match r {
            Ok(_) => no_field_fault(def@.fields, variant as int),
            Err(e) => first_field_fault(def@.fields, variant as int, e),
        },
{
    let n = def.fields.len();
    let mut j: usize = 0;
    while j < n
        invariant
            j <= n,
            n == def@.fields.len(),
            forall|k: int|
                0 <= k < j ==> field_fault(#[trigger] def@.fields[k], variant as int, k) is None,
        decreases n - j,
    {
        let spec = def.fields.spec_at(j);
        let fault = if spec.default.is_none() {
            None
        } else if spec.ty.is_optional() {
            Some(InvalidConfiguration::DefaultOnOptional { variant, field: j })
        } else {
            match &spec.default {
                FieldDefault::ExplicitDefault(literal) => match spec.ty.parse_default(literal.as_str()) {
                    Ok(_) => None,
                    Err(cause) => Some(InvalidConfiguration::InvalidDefault { variant, field: j, cause }),
                },
                _ => None,
            }
        };
        assert(fault == field_fault(def@.fields[j as int], variant as int, j as int));
        if let Some(e) = fault {
            return Err(e);
        }
        j = j + 1;
    }
    Ok(())
}

impl Registry {
    #[verifier::type_invariant]
    spec fn well_formed(self) -> bool {
        valid(definitions_view(self.definitions@))
    }

    /// Registers commands. They are refused where two have the same name,
    /// where a field has both an optional type and a default, and where a
    /// literal given as a default denotes no value of its field's type; the
    /// error tells what is wrong with the first command that is at fault.
    pub fn new(definitions: Vec<CommandDefinition>) -> (r: Result<Registry, InvalidConfiguration>)
        ensures
            r is Ok <==> valid(definitions_view(definitions@)),
            match r {
                Ok(registry) => registry@ == definitions_view(definitions@),
                Err(e) => refused(definitions_view(definitions@), e),
            },
    {
        let mut i: usize = 0;
        while i < definitions.len()
            invariant
                i <= definitions.len(),
                forall|k: int| 0 <= k < i ==> #[trigger] valid_definition(definitions_view(definitions@), k),
            decreases definitions.len() - i,
        {
            let fault = if name_is_taken(&definitions, i) {
                Err(InvalidConfiguration::DuplicateName { variant: i })
            } else {
                check_fields(&definitions[i], i)
            };
            match fault {
                Ok(()) => {},
                Err(e) => {
                    assert(definition_fault(definitions_view(definitions@), i as int, e));
                    proof {
                        lemma_fault_is_not_valid(definitions_view(definitions@), i as int, e);
                    }
                    return Err(e);
                },
            }
            i = i + 1;
        }
        Ok(Registry { definitions })
    }

    /// The commands, in the order of their declaration.
    pub fn definitions(&self) -> (r: &Vec<CommandDefinition>)
        ensures
            definitions_view(r@) == self@,
            valid(self@),
    {
        proof {
            use_type_invariant(self);
        }
        &self.definitions
    }

    /// Selects the command for a word; see `resolve`.
    pub fn resolve(&self, command_word: &str) -> (r: Result<usize, Error>)
        ensures
            match r {
                Ok(i) => resolves(self@, command_word@, Some(i as int)),
                Err(e) => resolves(self@, command_word@, None) && e@ == ErrorView::UnrecognizedCommand(
                    command_word@,
                ),
            },
    {
        resolve(command_word, &self.definitions)
    }
}

/// A command that is at fault is not valid.
pub proof fn lemma_fault_is_not_valid(defs: Seq<CommandDefinitionView>, i: int, e: InvalidConfiguration)
    requires
        0 <= i < defs.len(),
        definition_fault(defs, i, e),
    ensures
        !valid_definition(defs, i),
        !valid(defs),
{
    if !name_taken(defs, i) {
        let j = choose|j: int|
            {
                &&& 0 <= j < defs[i].fields.len()
                &&& field_fault(#[trigger] defs[i].fields[j], i, j) == Some(e)
                &&& forall|k: int| 0 <= k < j ==> field_fault(#[trigger] defs[i].fields[k], i, k) is None
            };
        assert(field_fault(defs[i].fields[j], i, j) is Some);
    }
    assert(!valid_definition(defs, i));
}

/// Commands that can be registered have no field with both an optional type
/// and a default.
pub proof fn lemma_valid_defaults(defs: Seq<CommandDefinitionView>, i: int)
    requires
        valid(defs),
        0 <= i < defs.len(),
    ensures
        defaults_allowed(defs[i].fields),
{
    assert(valid_definition(defs, i));
    assert forall|j: int| 0 <= j < defs[i].fields.len() && (#[trigger] defs[i].fields[j]).ty.optional implies defs[i].fields[j].default is Required by {
        assert(field_fault(defs[i].fields[j], i, j) is None);
    }
}

impl Replman for Registry {
    open spec fn commands(&self) -> Seq<CommandDefinitionView> {
        self@
    }

    fn help(&self) -> (text: String) {
        render_help(&self.definitions)
    }

    fn parse(&self, parts: Vec<Result<&str, TokenizeError>>) -> (r: Result<CommandValue, Error>) {
        proof {
            use_type_invariant(self);
        }
        if parts.len() == 0 {
            return Err(Error::UnrecognizedCommand(String::new()));
        }
        let ghost tokens = parts_view(parts@);
        assert(tokens.len() == parts@.len());
        assert(tokens[0] == crate::parsing::part_view(parts@[0]));
        let word = match parts[0] {
            Ok(word) => word,
            Err(TokenizeError::InvalidQuoting { position, found }) => {
                return Err(Error::InvalidQuoting { position, found });
            },
        };
        let i = match resolve(word, &self.definitions) {
            Ok(i) => i,
            Err(e) => {
                assert(resolves(self@, tokens[0]->Ok_0, None::<int>));
                return Err(e);
            },
        };
        assert(resolves(self@, tokens[0]->Ok_0, Some(i as int)));
        let mut remaining: Vec<Result<&str, TokenizeError>> = Vec::new();
        let mut k: usize = 1;
        while k < parts.len()
            invariant
                1 <= k <= parts.len(),
                remaining@ == parts@.subrange(1, k as int),
            decreases parts.len() - k,
        {
            remaining.push(parts[k]);
            k = k + 1;
        }
        assert(parts_view(remaining@) == parts_view(parts@).skip(1));
        proof {
            lemma_valid_defaults(self@, i as int);
        }
        assert(self@[i as int] == self.definitions@[i as int]@);
        match bind(&self.definitions[i], &remaining) {
            Ok(fields) => Ok(CommandValue { variant: i, fields }),
            Err(e) => Err(e),
        }
    }
}

/// Registers the commands that a declaration declares. This is done once,
/// before any line is parsed; a declaration that is at fault gives no
/// registry.
pub fn derive_repl_cmd_impl(input: &DeriveInput) -> (r: Result<Registry, InvalidConfiguration>)
    ensures
        derived(*input, r),
{
    let attrs = match EnumAttributes::extract(&input.attrs) {
        Ok(attrs) => attrs,
        Err(e) => {
            return Err(e);
        },
    };
    let data_enum = match &input.data {
        Data::Enum(data_enum) => data_enum,
        _ => {
            return Err(InvalidConfiguration::NotAnEnum);
        },
    };
    crate::parse_method::derive_parse_method(data_enum, &attrs)
}

/// In commands that can be registered, a field whose default is a literal
/// has a value when it gets no token: the literal was read when the
/// commands were registered.
pub proof fn lemma_registered_default_binds(defs: Seq<CommandDefinitionView>, i: int, j: int)
    requires
        valid(defs),
        0 <= i < defs.len(),
        0 <= j < defs[i].fields.len(),
        defs[i].fields[j].default is ExplicitDefault,
    ensures
        crate::bind::field_outcome(defs[i].fields[j], Ok(None)) is Ok,
{
    assert(valid_definition(defs, i));
    assert(field_fault(defs[i].fields[j], i, j) is None);
}

/// The parts of a line give one result only.
pub proof fn lemma_parses_unique(
    defs: Seq<CommandDefinitionView>,
    parts: Seq<Result<Seq<char>, TokenizeError>>,
    a: Result<CommandValueView, ErrorView>,
    b: Result<CommandValueView, ErrorView>,
)
    requires
        parses(defs, parts, a),
        parses(defs, parts, b),
    ensures
        a == b,
{
    if parts.len() > 0 {
        if let Ok(word) = parts[0] {
            let x = choose|choice: Option<int>| #[trigger]
                resolves(defs, word, choice) && match choice {
                    None => a == Err::<CommandValueView, ErrorView>(ErrorView::UnrecognizedCommand(word)),
                    Some(i) => match a {
                        Ok(value) => value.variant == i && binds(
                            defs[i].fields,
                            parts.skip(1),
                            Ok(value.fields),
                        ),
                        Err(e) => binds(defs[i].fields, parts.skip(1), Err(e)),
                    },
                };
            let y = choose|choice: Option<int>| #[trigger]
                resolves(defs, word, choice) && match choice {
                    None => b == Err::<CommandValueView, ErrorView>(ErrorView::UnrecognizedCommand(word)),
                    Some(i) => match b {
                        Ok(value) => value.variant == i && binds(
                            defs[i].fields,
                            parts.skip(1),
                            Ok(value.fields),
                        ),
                        Err(e) => binds(defs[i].fields, parts.skip(1), Err(e)),
                    },
                };
            lemma_resolves_unique(defs, word, x, y);
            if let Some(i) = x {
                let fields_a: Result<Seq<FieldValueView>, ErrorView> = match a {
                    Ok(value) => Ok(value.fields),
                    Err(e) => Err(e),
                };
                let fields_b: Result<Seq<FieldValueView>, ErrorView> = match b {
                    Ok(value) => Ok(value.fields),
                    Err(e) => Err(e),
                };
                lemma_binds_unique(defs[i].fields, parts.skip(1), fields_a, fields_b);
            }
        }
    }
}

/// A line whose first token selects no command, by name, by alias or by
/// prefix, gives the error that holds that token.
pub proof fn lemma_unrecognized_command(
    defs: Seq<CommandDefinitionView>,
    parts: Seq<Result<Seq<char>, TokenizeError>>,
    word: Seq<char>,
    r: Result<CommandValueView, ErrorView>,
)
    requires
        parts.len() > 0,
        parts[0] == Ok::<Seq<char>, TokenizeError>(word),
        none_in_tier(defs, word, Tier::Name),
        none_in_tier(defs, word, Tier::Alias),
        none_in_tier(defs, word, Tier::Prefix),
        parses(defs, parts, r),
    ensures
        r == Err::<CommandValueView, ErrorView>(ErrorView::UnrecognizedCommand(word)),
{
    assert(resolves(defs, word, None));
    let expected = Err::<CommandValueView, ErrorView>(ErrorView::UnrecognizedCommand(word));
    assert(parses(defs, parts, expected));
    lemma_parses_unique(defs, parts, r, expected);
}

/// A word that is the name of a registered command selects that command,
/// whatever aliases and prefixes the commands have: names are unique in a
/// registry, and names come before aliases and prefixes.
pub proof fn lemma_registered_name_selects(
    defs: Seq<CommandDefinitionView>,
    i: int,
    choice: Option<int>,
)
    requires
        valid(defs),
        0 <= i < defs.len(),
        resolves(defs, defs[i].names.main_name, choice),
    ensures
        choice == Some(i),
{
    let word = defs[i].names.main_name;
    assert forall|k: int| 0 <= k < i implies !crate::resolve::matches_tier(
        #[trigger] defs[k],
        word,
        Tier::Name,
    ) by {
        assert(valid_definition(defs, i));
    }
    crate::resolve::lemma_name_wins(defs, word, i, choice);
}

} // verus!
