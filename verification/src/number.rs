//! Decimal integers: reading one from a literal and writing one out.

use crate::error::ParseError;
use vstd::prelude::*;

verus! {

/// `c` is one of the decimal digits `0` to `9`.
pub open spec fn is_digit(c: char) -> bool {
    '0' <= c <= '9'
}

/// The number that a decimal digit stands for.
pub open spec fn digit_value(c: char) -> int {
    c as int - '0' as int
}

/// The number that a run of decimal digits stands for; 0 for the empty run.
pub open spec fn digits_value(s: Seq<char>) -> int
    decreases s.len(),
{
    if s.len() == 0 {
        0
    } else {
        10 * digits_value(s.drop_last()) + digit_value(s.last())
    }
}

/// How many decimal digits `s` begins with.
pub open spec fn leading_digits(s: Seq<char>) -> int
    decreases s.len(),
{
    if s.len() == 0 || !is_digit(s[0]) {
        0
    } else {
        1 + leading_digits(s.skip(1))
    }
}

/// What a run of characters gives when read as decimal digits from the left,
/// up to `limit`: the digits before the first other character are read, and
/// their number passing `limit` is reported before that character is.
pub open spec fn magnitude(s: Seq<char>, limit: int) -> Result<int, ParseError> {
    let k = leading_digits(s);
    let v = digits_value(s.take(k));
    if v > limit {
        Err(ParseError::PosOverflow)
    } else if k < s.len() {
        Err(ParseError::InvalidDigit)
    } else {
        Ok(v)
    }
}

/// The integer between `lo` and `hi` that a literal denotes: an optional
/// sign, `+` or (where `lo` is negative) `-`, and then one or more decimal
/// digits, nothing else.
pub open spec fn integer(text: Seq<char>, lo: int, hi: int) -> Result<int, ParseError> {
    if text.len() == 0 {
        Err(ParseError::Empty)
    } else if lo < 0 && text[0] == '-' {
        if text.len() == 1 {
            Err(ParseError::InvalidDigit)
        } else {
            match magnitude(text.skip(1), -lo) {
                Ok(v) => Ok(-v),
                Err(ParseError::PosOverflow) => Err(ParseError::NegOverflow),
                Err(e) => Err(e),
            }
        }
    } else if text[0] == '+' {
        if text.len() == 1 {
            Err(ParseError::InvalidDigit)
        } else {
            magnitude(text.skip(1), hi)
        }
    } else {
        magnitude(text, hi)
    }
}

/// A run of digits begins with as many digits as it has.
proof fn lemma_leading_digits_all(s: Seq<char>, k: int)
    requires
        0 <= k <= s.len(),
        forall|j: int| 0 <= j < k ==> is_digit(#[trigger] s[j]),
        k < s.len() ==> !is_digit(s[k]),
    ensures
        leading_digits(s) == k,
    decreases k,
{
    if k > 0 {
        let t = s.skip(1);
        assert forall|j: int| 0 <= j < k - 1 implies is_digit(#[trigger] t[j]) by {
            assert(t[j] == s[j + 1]);
        }
        lemma_leading_digits_all(t, k - 1);
    }
}

/// Reading one more digit multiplies the number by ten and adds the digit.
proof fn lemma_digits_value_step(s: Seq<char>, i: int)
    requires
        0 <= i < s.len(),
    ensures
        digits_value(s.take(i + 1)) == 10 * digits_value(s.take(i)) + digit_value(s[i]),
{
    assert(s.take(i + 1).drop_last() == s.take(i));
}

/// The number of a run of digits is not negative.
proof fn lemma_digits_value_nonnegative(s: Seq<char>)
    requires
        forall|j: int| 0 <= j < s.len() ==> is_digit(#[trigger] s[j]),
    ensures
        0 <= digits_value(s),
    decreases s.len(),
{
    if s.len() > 0 {
        let t = s.drop_last();
        assert forall|j: int| 0 <= j < t.len() implies is_digit(#[trigger] t[j]) by {
            assert(t[j] == s[j]);
        }
        lemma_digits_value_nonnegative(t);
        assert(is_digit(s[s.len() - 1]));
    }
}

/// No prefix of a run of digits has a greater number than a longer one.
proof fn lemma_digits_value_grows(s: Seq<char>, i: int, k: int)
    requires
        0 <= i <= k <= s.len(),
        forall|j: int| 0 <= j < k ==> is_digit(#[trigger] s[j]),
    ensures
        0 <= digits_value(s.take(i)) <= digits_value(s.take(k)),
    decreases k - i,
{
    let t = s.take(i);
    assert forall|j: int| 0 <= j < t.len() implies is_digit(#[trigger] t[j]) by {
        assert(t[j] == s[j]);
    }
    lemma_digits_value_nonnegative(t);
    if i < k {
        lemma_digits_value_grows(s, i + 1, k);
        lemma_digits_value_step(s, i);
        assert(is_digit(s[i]));
    }
}

/// `leading_digits` counts digits only, and stops at the first character
/// that is none.
proof fn lemma_leading_digits(s: Seq<char>)
    ensures
        0 <= leading_digits(s) <= s.len(),
        forall|j: int| 0 <= j < leading_digits(s) ==> is_digit(#[trigger] s[j]),
        leading_digits(s) < s.len() ==> !is_digit(s[leading_digits(s)]),
    decreases s.len(),
{
    if s.len() > 0 && is_digit(s[0]) {
        let t = s.skip(1);
        lemma_leading_digits(t);
        assert forall|j: int| 0 <= j < leading_digits(s) implies is_digit(#[trigger] s[j]) by {
            if j > 0 {
                assert(s[j] == t[j - 1]);
            }
        }
        if leading_digits(s) < s.len() {
            assert(s[leading_digits(s)] == t[leading_digits(t)]);
        }
    }
}

/// The number that the digit `c` stands for.
fn digit_of(c: char) -> (d: u128)
    requires
        is_digit(c),
    ensures
        d == digit_value(c),
        d <= 9,
{
    (c as u32 - '0' as u32) as u128
}

/// Reads the characters from index `from` on as decimal digits, up to
/// `limit`.
fn read_magnitude(chars: &Vec<char>, from: usize, limit: u128) -> (r: Result<u128, ParseError>)
    requires
        from <= chars.len(),
    ensures
        match r {
            Ok(v) => magnitude(chars@.skip(from as int), limit as int) == Ok::<int, ParseError>(
                v as int,
            ),
            Err(e) => magnitude(chars@.skip(from as int), limit as int) == Err::<int, ParseError>(e),
        },
{
    let ghost s = chars@.skip(from as int);
    let mut acc: u128 = 0;
    let mut i: usize = from;
    proof {
        assert(s.take(0).len() == 0);
        lemma_leading_digits(s);
    }
    while i < chars.len()
        invariant
            s == chars@.skip(from as int),
            from <= i <= chars.len(),
            forall|j: int| 0 <= j < i - from ==> is_digit(#[trigger] s[j]),
            acc == digits_value(s.take(i - from)),
            acc <= limit,
        decreases chars.len() - i,
    {
        let c = chars[i];
        assert(c == s[i - from]);
        if !('0' <= c && c <= '9') {
            proof {
                lemma_leading_digits_all(s, i - from);
            }
            return Err(ParseError::InvalidDigit);
        }
        let d = digit_of(c);
        proof {
            lemma_digits_value_step(s, i - from);
        }
        if d > limit || acc > (limit - d) / 10 {
            proof {
                let k = leading_digits(s);
                lemma_leading_digits(s);
                assert(k >= i - from + 1) by {
                    if k < i - from + 1 {
                        assert(is_digit(s[k]));
                    }
                }
                lemma_digits_value_grows(s, i - from + 1, k);
            }
            return Err(ParseError::PosOverflow);
        }
        acc = 10 * acc + d;
        i = i + 1;
    }
    proof {
        lemma_leading_digits_all(s, s.len() as int);
        assert(s.take(s.len() as int) == s);
    }
    Ok(acc)
}

/// Reads a literal as an integer between 0 and `hi`.
pub(crate) fn parse_unsigned(s: &str, hi: u128) -> (r: Result<u128, ParseError>)
    ensures
        match r {
            Ok(v) => v <= hi && integer(s@, 0, hi as int) == Ok::<int, ParseError>(v as int),
            Err(e) => integer(s@, 0, hi as int) == Err::<int, ParseError>(e),
        },
{
    let chars = crate::text::chars_of(s);
    if chars.len() == 0 {
        return Err(ParseError::Empty);
    }
    if chars[0] == '+' {
        if chars.len() == 1 {
            return Err(ParseError::InvalidDigit);
        }
        read_magnitude(&chars, 1, hi)
    } else {
        assert(chars@.skip(0) == chars@);
        read_magnitude(&chars, 0, hi)
    }
}

/// Reads a literal as an integer between `lo` and `hi`.
pub(crate) fn parse_signed(s: &str, lo: i128, hi: i128) -> (r: Result<i128, ParseError>)
    requires
        lo < 0 <= hi,
    ensures
        match r {
            Ok(v) => lo <= v <= hi && integer(s@, lo as int, hi as int) == Ok::<int, ParseError>(
                v as int,
            ),
            Err(e) => integer(s@, lo as int, hi as int) == Err::<int, ParseError>(e),
        },
{
    let chars = crate::text::chars_of(s);
    if chars.len() == 0 {
        return Err(ParseError::Empty);
    }
    if chars[0] == '-' {
        if chars.len() == 1 {
            return Err(ParseError::InvalidDigit);
        }
        let limit: u128 = (-(lo + 1)) as u128 + 1;
        match read_magnitude(&chars, 1, limit) {
            Ok(m) => if m == 0 {
                Ok(0)
            } else {
                Ok(-((m - 1) as i128) - 1)
            },
            Err(ParseError::PosOverflow) => Err(ParseError::NegOverflow),
            Err(e) => Err(e),
        }
    } else if chars[0] == '+' {
        if chars.len() == 1 {
            return Err(ParseError::InvalidDigit);
        }
        match read_magnitude(&chars, 1, hi as u128) {
            Ok(m) => Ok(m as i128),
            Err(e) => Err(e),
        }
    } else {
        assert(chars@.skip(0) == chars@);
        match read_magnitude(&chars, 0, hi as u128) {
            Ok(m) => Ok(m as i128),
            Err(e) => Err(e),
        }
    }
}

/// The integer that a literal denotes lies between `lo` and `hi`.
pub proof fn lemma_integer_in_range(text: Seq<char>, lo: int, hi: int)
    requires
        lo <= 0 <= hi,
    ensures
        integer(text, lo, hi) matches Ok(v) ==> lo <= v <= hi,
{
    if text.len() > 0 {
        let digits = if (lo < 0 && text[0] == '-') || text[0] == '+' {
            text.skip(1)
        } else {
            text
        };
        lemma_leading_digits(digits);
        let k = leading_digits(digits);
        let run = digits.take(k);
        assert forall|j: int| 0 <= j < run.len() implies is_digit(#[trigger] run[j]) by {
            assert(run[j] == digits[j]);
        }
        lemma_digits_value_nonnegative(run);
    }
}

/// The decimal digit for a number below ten.
pub open spec fn digit_char(d: int) -> char {
    seq!['0', '1', '2', '3', '4', '5', '6', '7', '8', '9'][d]
}

/// How a number is written in decimal digits, without leading zeros.
pub open spec fn decimal_digits(n: nat) -> Seq<char>
    decreases n,
{
    if n < 10 {
        seq![digit_char(n as int)]
    } else {
        decimal_digits(n / 10).push(digit_char((n % 10) as int))
    }
}

/// The decimal digit for a number below ten, as a text.
fn digit_text(d: usize) -> (r: &'static str)
    requires
        d < 10,
    ensures
        r@ == seq![digit_char(d as int)],
{
    proof {
        reveal_strlit("0");
        reveal_strlit("1");
        reveal_strlit("2");
        reveal_strlit("3");
        reveal_strlit("4");
        reveal_strlit("5");
        reveal_strlit("6");
        reveal_strlit("7");
        reveal_strlit("8");
        reveal_strlit("9");
    }
    let r = if d == 0 {
        "0"
    } else if d == 1 {
        "1"
    } else if d == 2 {
        "2"
    } else if d == 3 {
        "3"
    } else if d == 4 {
        "4"
    } else if d == 5 {
        "5"
    } else if d == 6 {
        "6"
    } else if d == 7 {
        "7"
    } else if d == 8 {
        "8"
    } else {
        "9"
    };
    assert(r@ =~= seq![digit_char(d as int)]);
    r
}

/// Appends a number in decimal digits.
pub fn push_decimal(out: &mut String, n: usize)
    ensures
        final(out)@ == old(out)@ + decimal_digits(n as nat),
    decreases n,
{
    if n >= 10 {
        push_decimal(out, n / 10);
    }
    out.append(digit_text(n % 10));
    assert(out@ == old(out)@ + decimal_digits(n as nat));
}

} // verus!
