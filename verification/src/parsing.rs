//! Splitting a line into tokens, with single and double quotes that protect
//! spaces.

use vstd::prelude::*;

verus! {

/// Why a line could not be split into tokens.
#[derive(Debug, Clone, Copy, PartialEq, Eq)]
pub enum TokenizeError {
    /// A character other than a space directly follows a closing quote.
    /// `position` counts characters from the start of the text that was
    /// scanned; `found` is the character that stands there.
    InvalidQuoting { position: usize, found: char },
}

/// Where the scanner stands with respect to quotes.
#[derive(Debug, Clone, Copy, PartialEq, Eq)]
pub enum QuoteState {
    /// Outside any quote.
    Outside,
    /// After an opening `"` that has not been closed.
    InDouble,
    /// After an opening `'` that has not been closed.
    InSingle,
    /// Directly after a closing quote.
    Closed,
}

/// What ends a scan.
pub enum Stop {
    /// The space at this index ends the token.
    Space(int),
    /// The character at this index follows a closing quote and is no space.
    Invalid(int),
    /// The text ends with the token.
    End,
}

/// The state after reading `c` in state `q`. Inside a quote every character
/// but the matching quote is literal, the other quote character included.
pub open spec fn quote_step(q: QuoteState, c: char) -> QuoteState {
    match q {
        QuoteState::InDouble => if c == '"' {
            QuoteState::Closed
        } else {
            QuoteState::InDouble
        },
        QuoteState::InSingle => if c == '\'' {
            QuoteState::Closed
        } else {
            QuoteState::InSingle
        },
        _ => if c == '"' {
            QuoteState::InDouble
        } else if c == '\'' {
            QuoteState::InSingle
        } else {
            QuoteState::Outside
        },
    }
}

/// The state in which the scanner reads `s[i]`, having started outside any
/// quote at `s[0]`.
pub open spec fn quote_state(s: Seq<char>, i: int) -> QuoteState
    decreases i,
{
    if i <= 0 {
        QuoteState::Outside
    } else {
        quote_step(quote_state(s, i - 1), s[i - 1])
    }
}

/// The character at index `i` of `s`.
pub open spec fn char_at(s: Seq<char>, i: int) -> char {
    s[i]
}

/// `s[i]` directly follows a closing quote and is no space.
pub open spec fn breaks_quoting(s: Seq<char>, i: int) -> bool {
    0 <= i < s.len() && quote_state(s, i) is Closed && s[i] != ' '
}

/// `s[i]` is a space outside any quote.
pub open spec fn splits_at(s: Seq<char>, i: int) -> bool {
    0 <= i < s.len() && s[i] == ' ' && (quote_state(s, i) is Outside || quote_state(s, i) is Closed)
}

/// No character before `s[i]` ends the scan.
pub open spec fn runs_to(s: Seq<char>, i: int) -> bool {
    forall|j: int| 0 <= j < i ==> !splits_at(s, j) && !breaks_quoting(s, j)
}

/// `stop` is where a scan of `s` from its start ends: at the first character
/// that is a space outside quotes or that breaks the quoting, or at the end.
pub open spec fn scan_stops(s: Seq<char>, stop: Stop) -> bool {
    match stop {
        Stop::Space(i) => splits_at(s, i) && runs_to(s, i),
        Stop::Invalid(i) => breaks_quoting(s, i) && runs_to(s, i),
        Stop::End => runs_to(s, s.len() as int),
    }
}

/// The index at or after `i` where the scan ends, the state before `s[i]`
/// being `q`; the length of `s` where it reads to the end.
pub open spec fn stop_index(s: Seq<char>, q: QuoteState, i: int) -> int
    decreases s.len() - i,
{
    if i < 0 || i >= s.len() {
        s.len() as int
    } else if q is Closed && s[i] != ' ' {
        i
    } else if s[i] == ' ' && (q is Outside || q is Closed) {
        i
    } else {
        stop_index(s, quote_step(q, s[i]), i + 1)
    }
}

/// `stop_index` never goes back, nor past the end.
pub proof fn lemma_stop_index_bounds(s: Seq<char>, q: QuoteState, i: int)
    requires
        0 <= i <= s.len(),
    ensures
        i <= stop_index(s, q, i) <= s.len(),
    decreases s.len() - i,
{
    if i < s.len() && !(q is Closed && s[i] != ' ') && !(s[i] == ' ' && (q is Outside || q is Closed)) {
        lemma_stop_index_bounds(s, quote_step(q, s[i]), i + 1);
    }
}

/// Where a scan of `s` from its start ends.
pub open spec fn next_stop(s: Seq<char>) -> Stop {
    let i = stop_index(s, QuoteState::Outside, 0);
    if i >= s.len() {
        Stop::End
    } else if s[i] == ' ' {
        Stop::Space(i)
    } else {
        Stop::Invalid(i)
    }
}

/// `s` has at least two characters and begins and ends with `quote`.
pub open spec fn enclosed_by(s: Seq<char>, quote: char) -> bool {
    s.len() >= 2 && s[0] == quote && s[s.len() - 1] == quote
}

/// A token without the pair of equal quote characters around it, if it has
/// one. Nothing inside the token changes.
pub open spec fn unescaped(s: Seq<char>) -> Seq<char> {
    if enclosed_by(s, '"') || enclosed_by(s, '\'') {
        s.subrange(1, s.len() - 1)
    } else {
        s
    }
}

/// The tokens of `line` from character `start` on: each token in order, and
/// after the last good token the error that ended the scan, if one did.
/// Positions in errors count from the start of `line`.
pub open spec fn tokens_from(line: Seq<char>, start: int) -> Seq<Result<Seq<char>, TokenizeError>>
    decreases line.len() - start,
{
    if start < 0 || start >= line.len() {
        Seq::empty()
    } else {
        let rest = line.skip(start);
        match next_stop(rest) {
            Stop::End => seq![Ok(unescaped(rest))],
            Stop::Invalid(i) => seq![
                Err(
                    TokenizeError::InvalidQuoting {
                        position: (start + i) as usize,
                        found: char_at(rest, i),
                    },
                ),
            ],
            Stop::Space(i) => {
                proof {
                    lemma_stop_index_bounds(rest, QuoteState::Outside, 0);
                }
                seq![Ok(unescaped(rest.take(i)))] + tokens_from(line, start + i + 1)
            },
        }
    }
}

/// The tokens of a whole line.
pub open spec fn tokens_of(line: Seq<char>) -> Seq<Result<Seq<char>, TokenizeError>> {
    tokens_from(line, 0)
}

/// The state in which `s[i]` is read is the one that `stop_index` carries
/// when it gets there.
proof fn lemma_stop_index_runs(s: Seq<char>, i: int)
    requires
        0 <= i <= s.len(),
        runs_to(s, i),
    ensures
        stop_index(s, QuoteState::Outside, 0) == stop_index(s, quote_state(s, i), i),
    decreases i,
{
    if i > 0 {
        assert(runs_to(s, i - 1));
        lemma_stop_index_runs(s, i - 1);
        assert(!splits_at(s, i - 1) && !breaks_quoting(s, i - 1));
    }
}

/// `next_stop` is the one stop that `scan_stops` admits.
pub proof fn lemma_next_stop_unique(s: Seq<char>, stop: Stop)
    requires
        scan_stops(s, stop),
    ensures
        next_stop(s) == stop,
{
    match stop {
        Stop::Space(i) => {
            lemma_stop_index_runs(s, i);
        },
        Stop::Invalid(i) => {
            lemma_stop_index_runs(s, i);
        },
        Stop::End => {
            lemma_stop_index_runs(s, s.len() as int);
        },
    }
}

/// A line has no more parts than it has characters from `start` on: the
/// tokens of a line are finite in number.
pub proof fn lemma_tokens_bounded(line: Seq<char>, start: int)
    requires
        0 <= start <= line.len(),
    ensures
        tokens_from(line, start).len() <= line.len() - start,
    decreases line.len() - start,
{
    if start < line.len() {
        let rest = line.skip(start);
        lemma_stop_index_bounds(rest, QuoteState::Outside, 0);
        match next_stop(rest) {
            Stop::Space(i) => {
                lemma_tokens_bounded(line, start + i + 1);
                assert(tokens_from(line, start) == seq![
                    Ok::<Seq<char>, TokenizeError>(unescaped(rest.take(i))),
                ] + tokens_from(line, start + i + 1));
            },
            Stop::Invalid(i) => {
                assert(tokens_from(line, start).len() == 1);
            },
            Stop::End => {
                assert(tokens_from(line, start).len() == 1);
            },
        }
    }
}

/// An error ends the parts of a line: every part before the last is a
/// token.
pub proof fn lemma_error_is_last(line: Seq<char>, start: int, k: int)
    requires
        0 <= start <= line.len(),
        0 <= k < tokens_from(line, start).len() - 1,
    ensures
        tokens_from(line, start)[k] is Ok,
    decreases line.len() - start,
{
    if start < line.len() {
        let rest = line.skip(start);
        lemma_stop_index_bounds(rest, QuoteState::Outside, 0);
        match next_stop(rest) {
            Stop::Space(i) => {
                let first = seq![Ok::<Seq<char>, TokenizeError>(unescaped(rest.take(i)))];
                assert(tokens_from(line, start) == first + tokens_from(line, start + i + 1));
                if k > 0 {
                    lemma_error_is_last(line, start + i + 1, k - 1);
                    assert((first + tokens_from(line, start + i + 1))[k] == tokens_from(
                        line,
                        start + i + 1,
                    )[k - 1]);
                }
            },
            Stop::Invalid(i) => {
                assert(tokens_from(line, start).len() == 1);
            },
            Stop::End => {
                assert(tokens_from(line, start).len() == 1);
            },
        }
    }
}

/// The empty line has no tokens.
pub proof fn lemma_empty_line_has_no_tokens()
    ensures
        tokens_of(Seq::empty()) == Seq::<Result<Seq<char>, TokenizeError>>::empty(),
{
}

/// The stop that a result of `find_next_unescaped_space` stands for.
pub open spec fn stop_of(r: Result<Option<usize>, TokenizeError>) -> Stop {
    match r {
        Ok(Some(x)) => Stop::Space(x as int),
        Ok(None) => Stop::End,
        Err(TokenizeError::InvalidQuoting { position, .. }) => Stop::Invalid(position as int),
    }
}

/// The state after reading `c` in state `q`.
fn advance(q: QuoteState, c: char) -> (r: QuoteState)
    ensures
        r == quote_step(q, c),
{
    match q {
        QuoteState::InDouble => if c == '"' {
            QuoteState::Closed
        } else {
            QuoteState::InDouble
        },
        QuoteState::InSingle => if c == '\'' {
            QuoteState::Closed
        } else {
            QuoteState::InSingle
        },
        _ => if c == '"' {
            QuoteState::InDouble
        } else if c == '\'' {
            QuoteState::InSingle
        } else {
            QuoteState::Outside
        },
    }
}

/// Finds the end of the first token of `s`: the index, in characters, of the
/// first space outside quotes (`Ok(Some(..))`), or the end of `s`
/// (`Ok(None)`). A character other than a space directly after a closing
/// quote ends the scan with an error that names its index and the character.
pub fn find_next_unescaped_space(s: &str) -> (r: Result<Option<usize>, TokenizeError>)
    ensures
        scan_stops(s@, stop_of(r)),
        next_stop(s@) == stop_of(r),
        r matches Err(TokenizeError::InvalidQuoting { position, found }) ==> found == char_at(
            s@,
            position as int,
        ),
{
    let n = s.unicode_len();
    let mut q = QuoteState::Outside;
    let mut idx: usize = 0;
    for c in it: s.chars()
        invariant
            it.seq() == s@,
            n == s@.len(),
            idx == it.index(),
            q == quote_state(s@, idx as int),
            runs_to(s@, idx as int),
    {
        let closed = match q {
            QuoteState::Closed => true,
            _ => false,
        };
        if closed && c != ' ' {
            let r = Err(TokenizeError::InvalidQuoting { position: idx, found: c });
            proof {
                lemma_next_stop_unique(s@, stop_of(r));
            }
            return r;
        }
        let outside = match q {
            QuoteState::Outside => true,
            QuoteState::Closed => true,
            _ => false,
        };
        if outside && c == ' ' {
            let r = Ok(Some(idx));
            proof {
                lemma_next_stop_unique(s@, stop_of(r));
            }
            return r;
        }
        q = advance(q, c);
        idx = idx + 1;
    }
    proof {
        lemma_next_stop_unique(s@, Stop::End);
    }
    Ok(None)
}

/// Strips the quotes from a token that begins and ends with the same quote
/// character, `"` or `'`. A token of one character is left as it is, and so
/// is every other token.
pub fn unescape<'a>(s: &'a str) -> (r: &'a str)
    ensures
        r@ == unescaped(s@),
{
    let n = s.unicode_len();
    if n >= 2 {
        let first = s.get_char(0);
        let last = s.get_char(n - 1);
        if (first == '"' && last == '"') || (first == '\'' && last == '\'') {
            return s.substring_char(1, n - 1);
        }
    }
    s
}

/// A token, or the error in its place, with the token as its characters.
pub open spec fn part_view(part: Result<&str, TokenizeError>) -> Result<Seq<char>, TokenizeError> {
    match part {
        Ok(token) => Ok(token@),
        Err(e) => Err(e),
    }
}

/// The parts of a line with each token as its characters.
pub open spec fn parts_view(parts: Seq<Result<&str, TokenizeError>>) -> Seq<
    Result<Seq<char>, TokenizeError>,
> {
    Seq::new(parts.len(), |i: int| part_view(parts[i]))
}

/// Splits a line into its tokens. Spaces separate tokens unless they stand
/// inside single or double quotes; a token that is enclosed in a pair of
/// equal quotes loses them. The result holds the tokens in order. Where a
/// character other than a space follows a closing quote, the result ends
/// with the error for it, after the tokens that precede it, and its position
/// counts characters from the start of the line.
pub fn split_string_unescape<'a>(s: &'a str) -> (parts: Vec<Result<&'a str, TokenizeError>>)
    ensures
        parts_view(parts@) == tokens_of(s@),
{
    let total = s.unicode_len();
    let mut parts: Vec<Result<&'a str, TokenizeError>> = Vec::new();
    let mut rest: &'a str = s;
    let mut start: usize = 0;
    while start < total
        invariant
            total == s@.len(),
            start <= total,
            rest@ == s@.skip(start as int),
            parts_view(parts@) + tokens_from(s@, start as int) == tokens_of(s@),
        decreases total - start,
    {
        let ghost before = parts_view(parts@);
        proof {
            lemma_stop_index_bounds(rest@, QuoteState::Outside, 0);
        }
        match find_next_unescaped_space(rest) {
            Err(TokenizeError::InvalidQuoting { position, found }) => {
                parts.push(Err(TokenizeError::InvalidQuoting { position: start + position, found }));
                assert(parts_view(parts@) == before + tokens_from(s@, start as int));
                return parts;
            },
            Ok(None) => {
                parts.push(Ok(unescape(rest)));
                assert(parts_view(parts@) == before + tokens_from(s@, start as int));
                return parts;
            },
            Ok(Some(x)) => {
                let raw = rest.substring_char(0, x);
                assert(raw@ == rest@.take(x as int));
                parts.push(Ok(unescape(raw)));
                rest = rest.substring_char(x + 1, total - start);
                assert(rest@ == s@.skip(start + x + 1));
                assert(parts_view(parts@) + tokens_from(s@, start + x + 1) == before + tokens_from(
                    s@,
                    start as int,
                ));
                start = start + x + 1;
            },
        }
    }
    assert(parts_view(parts@) + Seq::empty() == parts_view(parts@));
    parts
}

} // verus!
