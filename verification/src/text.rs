//! Text as a sequence of characters: how it falls into lines, which numbers its tokens
//! denote, and how a number is written.

use crate::arith::with_sign;
use crate::grid::{lemma_rows_push, rows};
use crate::scalar::{fits, Scalar};
use vstd::prelude::*;
use vstd::string::StringExecFns;

verus! {

/// What follows the last line feed of `s`: the line that no line feed has closed yet.
pub open spec fn open_line(s: Seq<char>) -> Seq<char>
    decreases s.len(),
{
    if s.len() == 0 || s.last() == '\n' {
        Seq::empty()
    } else {
        open_line(s.drop_last()).push(s.last())
    }
}

/// A closed line without the carriage return that may stand before its line feed.
pub open spec fn without_cr(line: Seq<char>) -> Seq<char> {
    if line.len() > 0 && line.last() == '\r' {
        line.drop_last()
    } else {
        line
    }
}

/// The lines of `s` that a line feed closes, in order, without their line endings.
pub open spec fn closed_lines(s: Seq<char>) -> Seq<Seq<char>>
    decreases s.len(),
{
    if s.len() == 0 {
        Seq::empty()
    } else if s.last() == '\n' {
        closed_lines(s.drop_last()).push(without_cr(open_line(s.drop_last())))
    } else {
        closed_lines(s.drop_last())
    }
}

/// The lines of `s`. A line ends with a line feed, or with a carriage return and a line
/// feed; the last line needs no ending, and a text that ends with a line ending has no
/// empty line after it. A carriage return with no line feed behind it belongs to its line.
pub open spec fn text_lines(s: Seq<char>) -> Seq<Seq<char>> {
    if open_line(s).len() == 0 {
        closed_lines(s)
    } else {
        closed_lines(s).push(open_line(s))
    }
}

/// Splits a text into its lines.
pub fn lines_of(input: &str) -> (lines: Vec<Vec<char>>)
    ensures
        rows(lines@) == text_lines(input@),
{
    let mut lines: Vec<Vec<char>> = Vec::new();
    let mut current: Vec<char> = Vec::new();
    assert(rows(lines@) =~= closed_lines(input@.take(0)));
    for c in it: input.chars()
        invariant
            it.seq() == input@,
            rows(lines@) == closed_lines(input@.take(it.index() as int)),
            current@ == open_line(input@.take(it.index() as int)),
    {
        let ghost before = input@.take(it.index() as int);
        let ghost after = input@.take(it.index() + 1);
        assert(after.drop_last() == before);
        assert(after.last() == c);
        if c == '\n' {
            let n = current.len();
            if n > 0 && current[n - 1] == '\r' {
                current.pop();
            }
            assert(current@ == without_cr(open_line(before)));
            proof {
                lemma_rows_push(lines@, current);
            }
            lines.push(current);
            current = Vec::new();
        } else {
            current.push(c);
        }
    }
    assert(input@.take(input@.len() as int) == input@);
    if current.len() > 0 {
        proof {
            lemma_rows_push(lines@, current);
        }
        lines.push(current);
    }
    lines
}

/// The characters of a text, one by one.
pub fn chars_of(input: &str) -> (chars: Vec<char>)
    ensures
        chars@ == input@,
{
    let mut chars: Vec<char> = Vec::new();
    for c in it: input.chars()
        invariant
            it.seq() == input@,
            chars@ == input@.take(it.index() as int),
    {
        chars.push(c);
        assert(input@.take(it.index() + 1) == input@.take(it.index() as int).push(c));
    }
    assert(input@.take(input@.len() as int) == input@);
    chars
}

/// Whether `c` is one of the ten decimal digits.
pub open spec fn is_digit(c: char) -> bool {
    '0' <= c <= '9'
}

/// The number from zero to nine that a digit stands for.
pub open spec fn digit_value(c: char) -> int {
    c as int - '0' as int
}

/// Whether `s` holds decimal digits only.
pub open spec fn all_digits(s: Seq<char>) -> bool {
    forall|i: int| 0 <= i < s.len() ==> is_digit(#[trigger] s[i])
}

/// The number that a sequence of decimal digits denotes, the first digit weighing most.
pub open spec fn digits_value(s: Seq<char>) -> int
    decreases s.len(),
{
    if s.len() == 0 {
        0
    } else {
        10 * digits_value(s.drop_last()) + digit_value(s.last())
    }
}

/// The number that decimal digits denote, where there is at least one digit and
/// nothing else.
pub open spec fn unsigned_number(s: Seq<char>) -> Option<int> {
    if s.len() > 0 && all_digits(s) {
        Some(digits_value(s))
    } else {
        None
    }
}

/// The number that digits denote, with the sign turned where `negative` says so.
pub open spec fn signed_number(negative: bool, digits: Seq<char>) -> Option<int> {
    match unsigned_number(digits) {
        Some(v) => Some(with_sign(negative, v)),
        None => None,
    }
}

/// The number that a token denotes: decimal digits, with a plus sign before them if
/// one likes, or, where `signed` allows it, a minus sign. Nothing else may stand in the
/// token, neither blanks nor underscores.
pub open spec fn number(token: Seq<char>, signed: bool) -> Option<int> {
    if token.len() > 0 && token[0] == '+' {
        unsigned_number(token.skip(1))
    } else if signed && token.len() > 0 && token[0] == '-' {
        signed_number(true, token.skip(1))
    } else {
        unsigned_number(token)
    }
}

/// The number that a token denotes for the type `T`: it has to lie within the limits
/// of `T`, and a minus sign is admitted only where `T` holds negative numbers.
pub open spec fn parsed<T: Scalar>(token: Seq<char>) -> Option<int> {
    match number(token, T::lowest() < 0) {
        Some(v) => if fits::<T>(v) {
            Some(v)
        } else {
            None
        },
        None => None,
    }
}

/// Digits never denote a negative number, and further digits never make it smaller.
pub proof fn lemma_digits_grow(s: Seq<char>, k: int)
    requires
        all_digits(s),
        0 <= k <= s.len(),
    ensures
        0 <= digits_value(s.take(k)) <= digits_value(s),
    decreases s.len() - k,
{
    lemma_digits_not_negative(s.take(k));
    if k < s.len() {
        lemma_digits_grow(s, k + 1);
        assert(s.take(k + 1).drop_last() == s.take(k));
        assert(is_digit(s[k]));
    } else {
        assert(s.take(k) == s);
    }
}

/// Digits never denote a negative number.
pub proof fn lemma_digits_not_negative(s: Seq<char>)
    requires
        all_digits(s),
    ensures
        0 <= digits_value(s),
    decreases s.len(),
{
    if s.len() > 0 {
        assert(is_digit(s.last()));
        lemma_digits_not_negative(s.drop_last());
    }
}

/// Reads a decimal number of the type `T` from a token.
pub fn parse_number<T: Scalar>(token: &str) -> (r: Option<T>)
    ensures
        match r {
            Some(v) => parsed::<T>(token@) == Some(v.as_int()),
            None => parsed::<T>(token@) is None,
        },
{
    let chars = chars_of(token);
    let n = chars.len();
    if n == 0 {
        return None;
    }
    let signed = match T::from_magnitude(true, 1) {
        Some(v) => {
            proof {
                v.lemma_in_range();
            }
            true
        },
        None => false,
    };
    proof {
        T::lemma_limits();
    }
    assert(signed == (T::lowest() < 0));
    let negative = signed && chars[0] == '-';
    let start: usize = if chars[0] == '+' || negative {
        1
    } else {
        0
    };
    let ghost body = token@.skip(start as int);
    assert(number(token@, T::lowest() < 0) == signed_number(negative, body)) by {
        assert(token@.skip(0) == token@);
    }
    if start == n {
        return None;
    }
    let mut value: u128 = 0;
    let mut i: usize = start;
    while i < n
        invariant
            start <= i <= n,
            n == chars.len(),
            chars@ == token@,
            body == token@.skip(start as int),
            number(token@, T::lowest() < 0) == signed_number(negative, body),
            all_digits(body.take(i - start)),
            value == digits_value(body.take(i - start)),
        decreases n - i,
    {
        let c = chars[i];
        let ghost seen = body.take(i - start);
        let ghost next = body.take(i + 1 - start);
        assert(next.drop_last() == seen);
        assert(next.last() == c);
        if !('0' <= c && c <= '9') {
            assert(!is_digit(body[i - start]));
            return None;
        }
        let d: u128 = (c as u32 - '0' as u32) as u128;
        let grown = match value.checked_mul(10) {
            Some(tenfold) => tenfold.checked_add(d),
            None => None,
        };
        match grown {
            Some(v) => {
                value = v;
            },
            None => {
                proof {
                    T::lemma_limits();
                    assert(digits_value(next) == 10 * value + d);
                    if all_digits(body) {
                        lemma_digits_grow(body, i + 1 - start);
                    }
                }
                return None;
            },
        }
        i += 1;
    }
    assert(body.take(n - start) == body);
    let r = T::from_magnitude(negative, value);
    proof {
        if let Some(v) = r {
            v.lemma_in_range();
        }
    }
    r
}

/// The digit that stands for a number from zero to nine.
pub open spec fn digit_char(d: int) -> char {
    if d == 0 {
        '0'
    } else if d == 1 {
        '1'
    } else if d == 2 {
        '2'
    } else if d == 3 {
        '3'
    } else if d == 4 {
        '4'
    } else if d == 5 {
        '5'
    } else if d == 6 {
        '6'
    } else if d == 7 {
        '7'
    } else if d == 8 {
        '8'
    } else {
        '9'
    }
}

/// The decimal digits of a number that is not negative, without leading zeros.
pub open spec fn digits_of(n: int) -> Seq<char>
    decreases n,
{
    if n < 10 {
        seq![digit_char(n)]
    } else {
        digits_of(n / 10).push(digit_char(n % 10))
    }
}

/// A number in decimal digits, with a minus sign before them if it is negative.
pub open spec fn decimal(v: int) -> Seq<char> {
    if v < 0 {
        seq!['-'] + digits_of(-v)
    } else {
        digits_of(v)
    }
}

/// The text of one digit.
fn digit_str(d: u8) -> (s: &'static str)
    requires
        d < 10,
    ensures
        s@ == seq![digit_char(d as int)],
{
    proof {
        reveal_strlit("0");
        reveal_strlit("1");
        reveal_strlit("2");
        reveal_strlit("3");
        reveal_strlit("4");
        reveal_strlit("5");
        reveal_strlit("6");
        reveal_strlit("7");
        reveal_strlit("8");
        reveal_strlit("9");
    }
    let s = if d == 0 {
        "0"
    } else if d == 1 {
        "1"
    } else if d == 2 {
        "2"
    } else if d == 3 {
        "3"
    } else if d == 4 {
        "4"
    } else if d == 5 {
        "5"
    } else if d == 6 {
        "6"
    } else if d == 7 {
        "7"
    } else if d == 8 {
        "8"
    } else {
        "9"
    };
    assert(s@ =~= seq![digit_char(d as int)]);
    s
}

/// Writes the decimal digits of `n` behind what `out` holds.
fn push_digits(out: &mut String, n: u128)
    ensures
        final(out)@ == old(out)@ + digits_of(n as int),
    decreases n,
{
    if n >= 10 {
        push_digits(out, n / 10);
    }
    out.append(digit_str((n % 10) as u8));
    assert(out@ =~= old(out)@ + digits_of(n as int));
}

/// Writes `v` in decimal digits behind what `out` holds.
pub fn push_decimal<T: Scalar>(out: &mut String, v: T)
    ensures
        final(out)@ == old(out)@ + decimal(v.as_int()),
{
    if v.is_negative() {
        proof {
            reveal_strlit("-");
        }
        out.append("-");
    }
    push_digits(out, v.magnitude());
    assert(out@ =~= old(out)@ + decimal(v.as_int()));
}

} // verus!
