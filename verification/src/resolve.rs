//! Selecting a command by a word: by name, then by alias, then by prefix.

use crate::definition::{definitions_view, CommandDefinition, CommandDefinitionView};
use crate::error::{Error, ErrorView};
use crate::text::{same_text, starts_with};
use vstd::prelude::*;

verus! {

/// A way in which a word can select a command. The tiers are tried in this
/// order, each over all commands before the next.
#[derive(Debug, Clone, Copy, PartialEq, Eq)]
pub enum Tier {
    /// The word is the command's name.
    Name,
    /// The word is one of the command's aliases.
    Alias,
    /// The word begins with one of the command's prefixes.
    Prefix,
}

/// Whether `word` selects the command in the given tier.
pub open spec fn matches_tier(def: CommandDefinitionView, word: Seq<char>, tier: Tier) -> bool {
    match tier {
        Tier::Name => def.names.main_name == word,
        Tier::Alias => exists|a: int|
            0 <= a < def.names.aliases.len() && #[trigger] def.names.aliases[a] == word,
        Tier::Prefix => exists|p: int|
            0 <= p < def.names.start_withs.len() && (#[trigger] def.names.start_withs[p]).is_prefix_of(
                word,
            ),
    }
}

/// The command at index `i` is the first that `word` selects in the tier.
pub open spec fn first_in_tier(defs: Seq<CommandDefinitionView>, word: Seq<char>, tier: Tier, i: int) -> bool {
    &&& 0 <= i < defs.len()
    &&& matches_tier(defs[i], word, tier)
    &&& forall|k: int| 0 <= k < i ==> !matches_tier(#[trigger] defs[k], word, tier)
}

/// `word` selects no command in the tier.
pub open spec fn none_in_tier(defs: Seq<CommandDefinitionView>, word: Seq<char>, tier: Tier) -> bool {
    forall|k: int| 0 <= k < defs.len() ==> !matches_tier(#[trigger] defs[k], word, tier)
}

/// `choice` is the command that `word` selects among `defs`: the first
/// whose name it is; where it is no command's name, the first that has it as
/// an alias; where it is no command's alias either, the first that has a
/// prefix with which it begins; and none where there is no such command.
pub open spec fn resolves(defs: Seq<CommandDefinitionView>, word: Seq<char>, choice: Option<int>) -> bool {
    match choice {
        Some(i) => {
            ||| first_in_tier(defs, word, Tier::Name, i)
            ||| none_in_tier(defs, word, Tier::Name) && first_in_tier(defs, word, Tier::Alias, i)
            ||| none_in_tier(defs, word, Tier::Name) && none_in_tier(defs, word, Tier::Alias)
                && first_in_tier(defs, word, Tier::Prefix, i)
        },
        None => {
            &&& none_in_tier(defs, word, Tier::Name)
            &&& none_in_tier(defs, word, Tier::Alias)
            &&& none_in_tier(defs, word, Tier::Prefix)
        },
    }
}

/// A word selects at most one command.
pub proof fn lemma_resolves_unique(
    defs: Seq<CommandDefinitionView>,
    word: Seq<char>,
    a: Option<int>,
    b: Option<int>,
)
    requires
        resolves(defs, word, a),
        resolves(defs, word, b),
    ensures
        a == b,
{
    if a is Some && b is Some {
        let i = a.unwrap();
        let j = b.unwrap();
        if i < j {
            assert(matches_tier(defs[i], word, Tier::Name) || matches_tier(defs[i], word, Tier::Alias)
                || matches_tier(defs[i], word, Tier::Prefix));
        } else if j < i {
            assert(matches_tier(defs[j], word, Tier::Name) || matches_tier(defs[j], word, Tier::Alias)
                || matches_tier(defs[j], word, Tier::Prefix));
        }
    } else if a is Some {
        let i = a.unwrap();
        assert(matches_tier(defs[i], word, Tier::Name) || matches_tier(defs[i], word, Tier::Alias)
            || matches_tier(defs[i], word, Tier::Prefix));
    } else if b is Some {
        let j = b.unwrap();
        assert(matches_tier(defs[j], word, Tier::Name) || matches_tier(defs[j], word, Tier::Alias)
            || matches_tier(defs[j], word, Tier::Prefix));
    }
}

/// A word that is the name of a command selects the first command of that
/// name, whatever aliases and prefixes this or any other command has.
pub proof fn lemma_name_wins(defs: Seq<CommandDefinitionView>, word: Seq<char>, i: int, choice: Option<int>)
    requires
        first_in_tier(defs, word, Tier::Name, i),
        resolves(defs, word, choice),
    ensures
        choice == Some(i),
{
    lemma_resolves_unique(defs, word, Some(i), choice);
}

/// A word that is no command's name and is an alias of a command selects
/// the first command with that alias, whatever prefixes any command has.
pub proof fn lemma_alias_before_prefix(
    defs: Seq<CommandDefinitionView>,
    word: Seq<char>,
    i: int,
    choice: Option<int>,
)
    requires
        none_in_tier(defs, word, Tier::Name),
        first_in_tier(defs, word, Tier::Alias, i),
        resolves(defs, word, choice),
    ensures
        choice == Some(i),
{
    lemma_resolves_unique(defs, word, Some(i), choice);
}

/// Whether `word` selects the command in the given tier.
pub fn selects(def: &CommandDefinition, word: &str, tier: Tier) -> (r: bool)
    ensures
        r == matches_tier(def@, word@, tier),
{
    match tier {
        Tier::Name => same_text(def.names.main_name.as_str(), word),
        Tier::Alias => {
            let aliases = &def.names.aliases;
            let mut a: usize = 0;
            while a < aliases.len()
                invariant
                    a <= aliases.len(),
                    tier is Alias,
                    aliases == &def.names.aliases,
                    forall|k: int| 0 <= k < a ==> #[trigger] def@.names.aliases[k] != word@,
                decreases aliases.len() - a,
            {
                if same_text(aliases[a].as_str(), word) {
                    assert(def@.names.aliases[a as int] == word@);
                    return true;
                }
                a = a + 1;
            }
            false
        },
        Tier::Prefix => {
            let prefixes = &def.names.start_withs;
            let mut p: usize = 0;
            while p < prefixes.len()
                invariant
                    p <= prefixes.len(),
                    tier is Prefix,
                    prefixes == &def.names.start_withs,
                    forall|k: int|
                        0 <= k < p ==> !(#[trigger] def@.names.start_withs[k]).is_prefix_of(word@),
                decreases prefixes.len() - p,
            {
                if starts_with(word, prefixes[p].as_str()) {
                    assert(def@.names.start_withs[p as int].is_prefix_of(word@));
                    return true;
                }
                p = p + 1;
            }
            false
        },
    }
}

/// The first command that `word` selects in the given tier.
pub fn first_match(word: &str, registry: &Vec<CommandDefinition>, tier: Tier) -> (r: Option<usize>)
    ensures
        match r {
            Some(i) => first_in_tier(definitions_view(registry@), word@, tier, i as int),
            None => none_in_tier(definitions_view(registry@), word@, tier),
        },
{
    let mut i: usize = 0;
    while i < registry.len()
        invariant
            i <= registry.len(),
            forall|k: int|
                0 <= k < i ==> !matches_tier(#[trigger] definitions_view(registry@)[k], word@, tier),
        decreases registry.len() - i,
    {
        if selects(&registry[i], word, tier) {
            return Some(i);
        }
        i = i + 1;
    }
    None
}

/// Selects the command for a word: the index of the first command whose
/// name the word is; else of the first that has it as an alias; else of the
/// first that has a prefix with which it begins. Where there is no such
/// command, the error holds the word.
pub fn resolve(command_word: &str, registry: &Vec<CommandDefinition>) -> (r: Result<usize, Error>)
    ensures
        match r {
            Ok(i) => resolves(definitions_view(registry@), command_word@, Some(i as int)),
            Err(e) => resolves(definitions_view(registry@), command_word@, None) && e@
                == ErrorView::UnrecognizedCommand(command_word@),
        },
{
    if let Some(i) = first_match(command_word, registry, Tier::Name) {
        return Ok(i);
    }
    if let Some(i) = first_match(command_word, registry, Tier::Alias) {
        return Ok(i);
    }
    if let Some(i) = first_match(command_word, registry, Tier::Prefix) {
        return Ok(i);
    }
    Err(Error::UnrecognizedCommand(command_word.to_owned()))
}

} // verus!
