//! Rendering of records as text and parsing of command arguments.

use vstd::prelude::*;
use vstd::string::{StrSliceExecFns, StringExecFns};
use crate::todo::{Todo, TodoView};

verus! {

/// The character standing for one decimal digit.
pub open spec fn digit_char(d: int) -> char {
    if d == 0 {
        '0'
    } else if d == 1 {
        '1'
    } else if d == 2 {
        '2'
    } else if d == 3 {
        '3'
    } else if d == 4 {
        '4'
    } else if d == 5 {
        '5'
    } else if d == 6 {
        '6'
    } else if d == 7 {
        '7'
    } else if d == 8 {
        '8'
    } else {
        '9'
    }
}

/// The decimal digits of a non-negative number, most significant first.
pub open spec fn decimal_digits(n: int) -> Seq<char>
    decreases n,
{
    if n < 10 {
        seq![digit_char(n)]
    } else {
        decimal_digits(n / 10) + seq![digit_char(n % 10)]
    }
}

/// The decimal rendering of a number, with a leading minus sign when negative.
pub open spec fn decimal(n: int) -> Seq<char> {
    if n < 0 {
        seq!['-'] + decimal_digits(-n)
    } else {
        decimal_digits(n)
    }
}

/// The one-character string for a decimal digit.
fn digit_str(d: i64) -> (r: &'static str)
    requires
        0 <= d < 10,
    ensures
        r@ =~= seq![digit_char(d as int)],
{
    proof {
        reveal_strlit("0");
        reveal_strlit("1");
        reveal_strlit("2");
        reveal_strlit("3");
        reveal_strlit("4");
        reveal_strlit("5");
        reveal_strlit("6");
        reveal_strlit("7");
        reveal_strlit("8");
        reveal_strlit("9");
    }
    match d {
        0 => "0",
        1 => "1",
        2 => "2",
        3 => "3",
        4 => "4",
        5 => "5",
        6 => "6",
        7 => "7",
        8 => "8",
        _ => "9",
    }
}

/// Appends the decimal digits of a non-negative number.
fn push_decimal_digits(out: &mut String, n: i64)
    requires
        n >= 0,
    ensures
        final(out)@ == old(out)@ + decimal_digits(n as int),
    decreases n,
{
    if n >= 10 {
        push_decimal_digits(out, n / 10);
    }
    let s = digit_str(n % 10);
    out.append(s);
    proof {
        assert(final(out)@ =~= old(out)@ + decimal_digits(n as int));
    }
}

/// The decimal rendering of an id as an owned string.
pub fn i32_string(n: i32) -> (r: String)
    ensures
        r@ == decimal(n as int),
{
    let mut out = String::new();
    let wide: i64 = n as i64;
    if wide < 0 {
        out.append("-");
        proof {
            reveal_strlit("-");
        }
        push_decimal_digits(&mut out, -wide);
        proof {
            assert(out@ =~= decimal(n as int));
        }
    } else {
        push_decimal_digits(&mut out, wide);
        proof {
            assert(out@ =~= decimal(n as int));
        }
    }
    out
}

/// The rendering of a status flag.
pub open spec fn bool_string(b: bool) -> Seq<char> {
    if b {
        "true"@
    } else {
        "false"@
    }
}

/// The rendered line for one record.
pub open spec fn line_of(t: TodoView) -> Seq<char> {
    "ID: "@ + decimal(t.id) + ", Title: "@ + t.title + ", Status: "@ + bool_string(t.status)
}

impl Todo {
    /// Renders the record as one output line, without a line break;
    /// the caller decides where to write it.
    pub fn print(&self) -> (r: String)
        ensures
            r@ == line_of(self@),
    {
        let mut out = String::from_str("ID: ");
        let num = i32_string(self.id);
        out.append(num.as_str());
        out.append(", Title: ");
        out.append(self.title.as_str());
        out.append(", Status: ");
        if self.status {
            out.append("true");
        } else {
            out.append("false");
        }
        proof {
            assert(out@ =~= line_of(self@));
        }
        out
    }
}

/// Position of the first space at or after `i`, or the length when there is none.
pub open spec fn first_space(s: Seq<char>, i: int) -> int
    decreases s.len() - i when 0 <= i <= s.len()
{
    if i >= s.len() {
        i
    } else if s[i] == ' ' {
        i
    } else {
        first_space(s, i + 1)
    }
}

/// The command token: everything before the first space.
pub open spec fn command_of(s: Seq<char>) -> Seq<char> {
    s.take(first_space(s, 0))
}

/// The argument text: everything after the first space, or empty without one.
pub open spec fn argument_of(s: Seq<char>) -> Seq<char> {
    let p = first_space(s, 0);
    if p < s.len() {
        s.skip(p + 1)
    } else {
        Seq::empty()
    }
}

/// Splits an input line into a command token and a single remaining-argument
/// string, on the first space only.
pub fn parse_input_to_cmd<'a>(input: &'a str) -> (r: (&'a str, &'a str))
    ensures
        r.0@ == command_of(input@),
        r.1@ == argument_of(input@),
{
    let n = input.unicode_len();
    let mut i: usize = 0;
    while i < n && input.get_char(i) != ' '
        invariant
            n == input@.len(),
            i <= n,
            first_space(input@, i as int) == first_space(input@, 0),
        decreases n - i,
    {
        i += 1;
    }
    proof {
        assert(first_space(input@, 0) == i as int);
    }
    let cmd = input.substring_char(0, i);
    let args = if i < n {
        input.substring_char(i + 1, n)
    } else {
        input.substring_char(n, n)
    };
    proof {
        assert(cmd@ =~= command_of(input@));
        assert(args@ =~= argument_of(input@));
    }
    (cmd, args)
}

/// Whether a character is a decimal digit.
pub open spec fn is_digit(c: char) -> bool {
    48 <= c as int <= 57
}

/// The numeric value of one digit character.
pub open spec fn digit_value(c: char) -> int {
    c as int - 48
}

/// Whether every character of the text is a decimal digit.
pub open spec fn all_digits(s: Seq<char>) -> bool {
    forall|i: int| 0 <= i < s.len() ==> is_digit(#[trigger] s[i])
}

/// The numeric value of a digit string, most significant digit first.
pub open spec fn digits_value(s: Seq<char>) -> int
    decreases s.len(),
{
    if s.len() == 0 {
        0
    } else {
        digits_value(s.drop_last()) * 10 + digit_value(s.last())
    }
}

/// A digit string's value is never negative.
proof fn lemma_digits_value_nonneg(s: Seq<char>)
    requires
        all_digits(s),
    ensures
        digits_value(s) >= 0,
    decreases s.len(),
{
    if s.len() > 0 {
        assert(all_digits(s.drop_last()));
        lemma_digits_value_nonneg(s.drop_last());
    }
}

/// The digit part of a signed number: everything after an optional sign.
pub open spec fn number_digits(s: Seq<char>) -> Seq<char> {
    if s.len() > 0 && (s[0] == '+' || s[0] == '-') {
        s.skip(1)
    } else {
        s
    }
}

/// The sign of a signed number: negative only under a leading minus.
pub open spec fn number_sign(s: Seq<char>) -> int {
    if s.len() > 0 && s[0] == '-' {
        -1
    } else {
        1
    }
}

/// The texts accepted as an id argument: an optional sign followed by at
/// least one digit, and nothing else, with the value in the i32 range.
pub open spec fn parses_as_i32(s: Seq<char>) -> bool {
    let d = number_digits(s);
    d.len() > 0 && all_digits(d) && (i32::MIN as int) <= number_sign(s) * digits_value(d) <= (
    i32::MAX as int)
}

/// The value that an accepted id argument denotes.
pub open spec fn parsed_i32(s: Seq<char>) -> int {
    number_sign(s) * digits_value(number_digits(s))
}

/// Reads a numeric id argument: an optional sign, then digits; anything
/// malformed or out of the i32 range is refused.
pub fn parse_i32(s: &str) -> (r: Option<i32>)
    ensures
        r is Some <==> parses_as_i32(s@),
        r matches Some(v) ==> v as int == parsed_i32(s@),
{
    let n = s.unicode_len();
    if n == 0 {
        return None;
    }
    let first = s.get_char(0);
    let negative = first == '-';
    let start: usize = if first == '-' || first == '+' {
        1
    } else {
        0
    };
    if n == start {
        return None;
    }
    let mut i: usize = start;
    let mut mag: i64 = 0;
    while i < n
        invariant
            start <= i <= n,
            n == s@.len(),
            n > start,
            start <= 1,
            start == 1 <==> (s@[0] == '+' || s@[0] == '-'),
            negative <==> s@[0] == '-',
            all_digits(s@.subrange(start as int, i as int)),
            0 <= mag <= 2147483649,
            digits_value(s@.subrange(start as int, i as int)) <= 2147483648 ==> mag
                == digits_value(s@.subrange(start as int, i as int)),
            digits_value(s@.subrange(start as int, i as int)) > 2147483648 ==> mag == 2147483649,
        decreases n - i,
    {
        let c = s.get_char(i);
        let code = c as u32;
        if code < 48 || code > 57 {
            proof {
                assert(!is_digit(s@[i as int]));
                if start == 1 {
                    assert(number_digits(s@) == s@.skip(1));
                    assert(number_digits(s@)[i as int - 1] == s@[i as int]);
                } else {
                    assert(number_digits(s@)[i as int] == s@[i as int]);
                }
                assert(!all_digits(number_digits(s@)));
            }
            return None;
        }
        let d = (code - 48) as i64;
        let ghost prefix = s@.subrange(start as int, i as int);
        let ghost value_before = digits_value(prefix);
        proof {
            lemma_digits_value_nonneg(prefix);
            assert(s@.subrange(start as int, i + 1).drop_last() =~= prefix);
        }
        mag = mag * 10 + d;
        if mag > 2147483648i64 {
            mag = 2147483649i64;
        }
        proof {
            assert(digits_value(s@.subrange(start as int, i + 1)) == value_before * 10
                + digit_value(s@[i as int]));
            if value_before > 2147483648 {
                assert(value_before * 10 + digit_value(s@[i as int]) > 2147483648);
            }
        }
        i += 1;
    }
    proof {
        assert(s@.subrange(start as int, n as int) =~= number_digits(s@));
        lemma_digits_value_nonneg(number_digits(s@));
    }
    if negative {
        if mag <= 2147483648i64 {
            Some((-mag) as i32)
        } else {
            None
        }
    } else {
        if mag <= 2147483647i64 {
            Some(mag as i32)
        } else {
            None
        }
    }
}

/// Reads a status argument: exactly "true" or "false", anything else is refused.
pub fn parse_bool(s: &str) -> (r: Option<bool>)
    ensures
        r == Some(true) <==> s@ == "true"@,
        r == Some(false) <==> s@ == "false"@,
        r is None <==> (s@ != "true"@ && s@ != "false"@),
{
    proof {
        reveal_strlit("true");
        reveal_strlit("false");
        assert("true"@.len() != "false"@.len());
    }
    let v = s.to_owned();
    if v == String::from_str("true") {
        Some(true)
    } else if v == String::from_str("false") {
        Some(false)
    } else {
        None
    }
}

} // verus!
