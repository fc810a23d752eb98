//! Reading and writing numbers in base ten.

use vstd::prelude::*;
use vstd::string::StringExecFns;

verus! {

/// `c` is one of the digits `0` to `9`.
pub open spec fn is_digit(c: char) -> bool {
    '0' <= c && c <= '9'
}

/// The number that a digit stands for.
pub open spec fn digit_value(c: char) -> int {
    c as u32 - '0' as u32
}

/// Every character of `s` is a digit.
pub open spec fn all_digits(s: Seq<char>) -> bool {
    forall|i: int| 0 <= i < s.len() ==> is_digit(#[trigger] s[i])
}

/// The number that a sequence of digits stands for in base ten; the empty
/// sequence stands for 0.
pub open spec fn decimal_value(digits: Seq<char>) -> int
    decreases digits.len(),
{
    if digits.len() == 0 {
        0
    } else {
        decimal_value(digits.drop_last()) * 10 + digit_value(digits.last())
    }
}

/// The digits of a number that may be written with a plus sign in front.
pub open spec fn without_sign(text: Seq<char>) -> Seq<char> {
    if text.len() > 0 && text[0] == '+' {
        text.drop_first()
    } else {
        text
    }
}

/// The number that `text` stands for: one or more digits, with or without a
/// plus sign in front of them, whose value fits in 32 bits. Any other text
/// stands for no number.
pub open spec fn parsed_u32(text: Seq<char>) -> Option<u32> {
    let digits = without_sign(text);
    if digits.len() > 0 && all_digits(digits) && decimal_value(digits) <= u32::MAX {
        Some(decimal_value(digits) as u32)
    } else {
        None
    }
}

/// More digits do not make a number smaller.
proof fn lemma_decimal_value_grows(digits: Seq<char>, k: int)
    requires
        all_digits(digits),
        0 <= k <= digits.len(),
    ensures
        0 <= decimal_value(digits.take(k)) <= decimal_value(digits),
    decreases digits.len(),
{
    if digits.len() > 0 {
        if k == digits.len() {
            assert(digits.take(k) =~= digits);
            lemma_decimal_value_grows(digits.drop_last(), k - 1);
        } else {
            lemma_decimal_value_grows(digits.drop_last(), k);
            assert(digits.drop_last().take(k) =~= digits.take(k));
        }
    }
}

/// Reads an unsigned decimal number, as `str::parse::<u32>` does.
pub fn parse_u32(text: &str) -> (res: Option<u32>)
    ensures
        res == parsed_u32(text@),
{
    let mut value: u32 = 0;
    let mut signed: bool = false;
    let mut at_start: bool = true;
    let mut any_digit: bool = false;
    let ghost digits = without_sign(text@);
    for c in it: text.chars()
        invariant
            it.seq() == text@,
            digits == without_sign(text@),
            at_start <==> it.index() == 0,
            signed <==> (it.index() > 0 && text@[0] == '+'),
            any_digit <==> it.index() > (if signed { 1int } else { 0 }),
            all_digits(text@.subrange(if signed { 1int } else { 0 }, it.index() as int)),
            value == decimal_value(
                text@.subrange(if signed { 1int } else { 0 }, it.index() as int),
            ),
    {
        let ghost seen = it.index() as int;
        let ghost skip = if signed { 1int } else { 0 };
        let ghost before = text@.subrange(skip, seen);
        if at_start && c == '+' {
            signed = true;
        } else {
            if !(c >= '0' && c <= '9') {
                assert(digits[seen - skip] == c);
                return None;
            }
            let digit: u32 = c as u32 - '0' as u32;
            let ghost after = text@.subrange(skip, seen + 1);
            proof {
                assert(after.drop_last() =~= before);
                assert(after =~= digits.take(seen + 1 - skip));
                if all_digits(digits) {
                    lemma_decimal_value_grows(digits, seen + 1 - skip);
                }
            }
            if value > (u32::MAX - digit) / 10 {
                return None;
            }
            value = value * 10 + digit;
            any_digit = true;
        }
        at_start = false;
    }
    proof {
        let skip = if signed { 1int } else { 0 };
        assert(text@.subrange(skip, text@.len() as int) =~= digits);
    }
    if any_digit {
        Some(value)
    } else {
        None
    }
}

/// The digit that stands for a number from 0 to 9.
pub open spec fn digit_char(d: int) -> char {
    ('0' as u32 + d) as char
}

/// The digits of a number in base ten, without leading zeros.
pub open spec fn decimal_digits(n: nat) -> Seq<char>
    decreases n,
{
    if n < 10 {
        seq![digit_char(n as int)]
    } else {
        decimal_digits(n / 10).push(digit_char((n % 10) as int))
    }
}

/// A whole number in base ten, with a minus sign in front where it is
/// negative.
pub open spec fn decimal_text(n: int) -> Seq<char> {
    if n < 0 {
        seq!['-'] + decimal_digits((-n) as nat)
    } else {
        decimal_digits(n as nat)
    }
}

/// Writing a number and reading it again gives the number back.
pub proof fn lemma_digits_are_read_back(n: nat)
    ensures
        decimal_digits(n).len() > 0,
        all_digits(decimal_digits(n)),
        decimal_value(decimal_digits(n)) == n,
        n <= u32::MAX ==> parsed_u32(decimal_digits(n)) == Some(n as u32),
    decreases n,
{
    let digits = decimal_digits(n);
    if n < 10 {
        assert(decimal_value(digits.drop_last()) == 0);
    } else {
        lemma_digits_are_read_back(n / 10);
        let front = decimal_digits(n / 10);
        assert(digits.drop_last() =~= front);
    }
}

fn digit_text(d: u32) -> (text: &'static str)
    requires
        d < 10,
    ensures
        text@ == seq![digit_char(d as int)],
{
    proof {
        reveal_strlit("0");
        reveal_strlit("1");
        reveal_strlit("2");
        reveal_strlit("3");
        reveal_strlit("4");
        reveal_strlit("5");
        reveal_strlit("6");
        reveal_strlit("7");
        reveal_strlit("8");
        reveal_strlit("9");
    }
    let text = if d == 0 {
        "0"
    } else if d == 1 {
        "1"
    } else if d == 2 {
        "2"
    } else if d == 3 {
        "3"
    } else if d == 4 {
        "4"
    } else if d == 5 {
        "5"
    } else if d == 6 {
        "6"
    } else if d == 7 {
        "7"
    } else if d == 8 {
        "8"
    } else {
        "9"
    };
    text
}

/// Writes an unsigned number in base ten.
pub fn u32_to_text(n: u32) -> (text: String)
    ensures
        text@ == decimal_digits(n as nat),
    decreases n,
{
    if n < 10 {
        digit_text(n).to_owned()
    } else {
        let front = u32_to_text(n / 10);
        front.concat(digit_text(n % 10))
    }
}

/// Writes a signed number in base ten, as it is displayed.
pub fn i32_to_text(n: i32) -> (text: String)
    ensures
        text@ == decimal_text(n as int),
{
    if n < 0 {
        proof {
            reveal_strlit("-");
        }
        let size: u32 = (-(n as i64)) as u32;
        let minus: String = "-".to_owned();
        let digits = u32_to_text(size);
        let text = minus.concat(digits.as_str());
        text
    } else {
        u32_to_text(n as u32)
    }
}

} // verus!
