//! Decimal digits: runs of them in a text, and the numbers they stand for.

use crate::text::{chars_of, string_of_range, text_views};
use vstd::prelude::*;

verus! {

/// An ASCII digit.
pub open spec fn is_digit(c: char) -> bool {
    '0' <= c && c <= '9'
}

/// A non-empty text of ASCII digits.
pub open spec fn is_digits(text: Seq<char>) -> bool {
    &&& text.len() > 0
    &&& forall|i: int| 0 <= i < text.len() ==> is_digit(#[trigger] text[i])
}

/// The value of one digit.
pub open spec fn digit_value(c: char) -> nat {
    (c as int - 48) as nat
}

/// The digit that stands for a value below ten.
pub open spec fn digit_char(value: nat) -> char {
    (value + 48) as char
}

/// The number that a text of digits stands for.
pub open spec fn number(text: Seq<char>) -> nat
    decreases text.len(),
{
    if text.len() == 0 {
        0
    } else {
        number(text.drop_last()) * 10 + digit_value(text.last())
    }
}

/// The decimal text of a number, without leading zeros.
pub open spec fn decimal(n: nat) -> Seq<char>
    decreases n,
{
    if n < 10 {
        seq![digit_char(n)]
    } else {
        decimal(n / 10).push(digit_char(n % 10))
    }
}

/// A text of digits that is the decimal text of some number.
pub open spec fn is_canonical(text: Seq<char>) -> bool {
    &&& is_digits(text)
    &&& text.len() == 1 || text[0] != '0'
}

// ---------------------------------------------------------------------------
// Numbers to text
// ---------------------------------------------------------------------------

fn digit_of(value: u64) -> (c: char)
    requires
        value < 10,
    ensures
        c == digit_char(value as nat),
        is_digit(c),
{
    match value {
        0 => '0',
        1 => '1',
        2 => '2',
        3 => '3',
        4 => '4',
        5 => '5',
        6 => '6',
        7 => '7',
        8 => '8',
        _ => '9',
    }
}

/// The decimal text of `n`.
pub fn decimal_text(n: u64) -> (text: String)
    ensures
        text@ == decimal(n as nat),
    decreases n,
{
    if n < 10 {
        let mut text = String::new();
        text.push(digit_of(n));
        assert(text@ =~= decimal(n as nat));
        text
    } else {
        let mut text = decimal_text(n / 10);
        text.push(digit_of(n % 10));
        text
    }
}

/// The decimal text of a number is canonical and stands for that number.
pub proof fn decimal_stands_for_number(n: nat)
    ensures
        is_canonical(decimal(n)),
        number(decimal(n)) == n,
        n > 0 ==> decimal(n)[0] != '0',
    decreases n,
{
    if n < 10 {
        let text = decimal(n);
        assert(text.drop_last() =~= Seq::<char>::empty());
        assert(number(text.drop_last()) == 0);
        assert(number(text) == number(text.drop_last()) * 10 + digit_value(text.last()));
    } else {
        decimal_stands_for_number(n / 10);
        let text = decimal(n);
        assert(text.drop_last() =~= decimal(n / 10));
        assert(is_digit(text.last()));
        assert forall|i: int| 0 <= i < text.len() implies is_digit(#[trigger] text[i]) by {
            if i < text.len() - 1 {
                assert(text[i] == decimal(n / 10)[i]);
            }
        }
    }
}

/// A canonical text of digits is the decimal text of the number that it
/// stands for.
pub proof fn number_has_one_canonical_text(text: Seq<char>)
    requires
        is_canonical(text),
    ensures
        decimal(number(text)) == text,
        text[0] != '0' ==> number(text) > 0,
    decreases text.len(),
{
    let last = text.last();
    assert(is_digit(last));
    if text.len() == 1 {
        assert(text.drop_last() =~= Seq::<char>::empty());
        assert(number(text.drop_last()) == 0);
        assert(number(text) == digit_value(last));
        assert(decimal(number(text)) =~= text);
    } else {
        let front = text.drop_last();
        assert forall|i: int| 0 <= i < front.len() implies is_digit(#[trigger] front[i]) by {
            assert(front[i] == text[i]);
        }
        assert(front[0] == text[0]);
        number_has_one_canonical_text(front);
        let n = number(text);
        assert(number(front) > 0);
        assert(n == number(front) * 10 + digit_value(last));
        assert(n / 10 == number(front));
        assert(n % 10 == digit_value(last));
        assert(decimal(n) =~= text);
    }
}

// ---------------------------------------------------------------------------
// Text to numbers
// ---------------------------------------------------------------------------

/// The digits of `text` behind an optional plus sign.
pub open spec fn unsigned_digits(text: Seq<char>) -> Seq<char> {
    if text.len() > 1 && text[0] == '+' {
        text.skip(1)
    } else {
        text
    }
}

/// The number that `text` stands for: an optional plus sign, then digits
/// only, and no more than `max`.
pub open spec fn unsigned_number(text: Seq<char>, max: nat) -> Option<nat> {
    let digits = unsigned_digits(text);
    if is_digits(digits) && number(digits) <= max {
        Some(number(digits))
    } else {
        None
    }
}

/// The number that `text` stands for: an optional sign, then digits only,
/// and within the range of 64-bit signed integers.
pub open spec fn signed_number(text: Seq<char>) -> Option<int> {
    if text.len() > 1 && text[0] == '-' {
        let digits = text.skip(1);
        if is_digits(digits) && -number(digits) >= i64::MIN {
            Some(-number(digits))
        } else {
            None
        }
    } else {
        match unsigned_number(text, i64::MAX as nat) {
            Some(n) => Some(n as int),
            None => None,
        }
    }
}

/// A prefix of a text of digits stands for no larger number than the text.
proof fn number_grows(text: Seq<char>, len: int)
    requires
        0 <= len <= text.len(),
    ensures
        number(text.take(len)) <= number(text),
    decreases text.len() - len,
{
    if len < text.len() {
        number_grows(text, len + 1);
        assert(text.take(len + 1).drop_last() =~= text.take(len));
    } else {
        assert(text.take(len) =~= text);
    }
}

fn number_from(chars: &Vec<char>, from: usize, max: u64) -> (result: Option<u64>)
    requires
        from <= chars@.len(),
    ensures
        result is Some <==> is_digits(chars@.skip(from as int)) && number(chars@.skip(from as int))
            <= max,
        result is Some ==> result->0 == number(chars@.skip(from as int)),
{
    let ghost digits = chars@.skip(from as int);
    if from >= chars.len() {
        return None;
    }
    let mut value: u64 = 0;
    let mut i: usize = from;
    assert(digits.take(0) =~= Seq::<char>::empty());
    while i < chars.len()
        invariant
            from <= i <= chars@.len(),
            digits == chars@.skip(from as int),
            forall|j: int| 0 <= j < i - from ==> is_digit(#[trigger] digits[j]),
            value == number(digits.take(i - from)),
            value <= max,
        decreases chars@.len() - i,
    {
        let c = chars[i];
        assert(digits[i - from] == c);
        if !('0' <= c && c <= '9') {
            return None;
        }
        let next: u128 = value as u128 * 10 + (c as u32 - 48) as u128;
        proof {
            assert(digits.take(i + 1 - from).drop_last() =~= digits.take(i - from));
            assert(digits.take(i + 1 - from).last() == c);
            assert(next == number(digits.take(i + 1 - from)));
            number_grows(digits, i + 1 - from);
        }
        if next > max as u128 {
            return None;
        }
        value = next as u64;
        i = i + 1;
    }
    assert(digits.take(i - from) =~= digits);
    Some(value)
}

/// Reads a port-sized unsigned number.
pub fn parse_u16(text: &str) -> (result: Option<u16>)
    ensures
        match unsigned_number(text@, u16::MAX as nat) {
            Some(n) => result == Some(n as u16),
            None => result is None,
        },
{
    let chars = chars_of(text);
    let from: usize = if chars.len() > 1 && chars[0] == '+' {
        1
    } else {
        0
    };
    assert(chars@.skip(from as int) =~= unsigned_digits(text@));
    match number_from(&chars, from, 65535) {
        Some(n) => Some(n as u16),
        None => None,
    }
}

/// Reads a 64-bit signed number.
pub fn parse_i64(text: &str) -> (result: Option<i64>)
    ensures
        match signed_number(text@) {
            Some(n) => result == Some(n as i64),
            None => result is None,
        },
{
    let chars = chars_of(text);
    if chars.len() > 1 && chars[0] == '-' {
        match number_from(&chars, 1, 0x8000_0000_0000_0000) {
            Some(n) => {
                let negated: i128 = -(n as i128);
                Some(negated as i64)
            },
            None => None,
        }
    } else {
        let from: usize = if chars.len() > 1 && chars[0] == '+' {
            1
        } else {
            0
        };
        assert(chars@.skip(from as int) =~= unsigned_digits(text@));
        match number_from(&chars, from, 0x7fff_ffff_ffff_ffff) {
            Some(n) => Some(n as i64),
            None => None,
        }
    }
}

// ---------------------------------------------------------------------------
// Runs of digits
// ---------------------------------------------------------------------------

/// How many digits `text` starts with.
pub open spec fn leading_digits(text: Seq<char>) -> nat
    decreases text.len(),
{
    if text.len() > 0 && is_digit(text[0]) {
        1 + leading_digits(text.skip(1))
    } else {
        0
    }
}

/// The leading digits of a text are digits, and no digit follows them.
pub proof fn leading_digits_are_digits(text: Seq<char>)
    ensures
        leading_digits(text) <= text.len(),
        forall|i: int| 0 <= i < leading_digits(text) ==> is_digit(#[trigger] text[i]),
        leading_digits(text) < text.len() ==> !is_digit(text[leading_digits(text) as int]),
    decreases text.len(),
{
    if text.len() > 0 && is_digit(text[0]) {
        let rest = text.skip(1);
        leading_digits_are_digits(rest);
        assert forall|i: int| 0 <= i < leading_digits(text) implies is_digit(
            #[trigger] text[i],
        ) by {
            if i > 0 {
                assert(rest[i - 1] == text[i]);
            }
        }
        if leading_digits(text) < text.len() {
            assert(rest[leading_digits(rest) as int] == text[leading_digits(text) as int]);
        }
    }
}

/// The longest runs of digits in `text`, from left to right.
pub open spec fn digit_runs(text: Seq<char>) -> Seq<Seq<char>>
    decreases text.len(),
{
    if text.len() == 0 {
        seq![]
    } else if is_digit(text[0]) {
        proof {
            leading_digits_are_digits(text);
        }
        seq![text.take(leading_digits(text) as int)] + digit_runs(
            text.skip(leading_digits(text) as int),
        )
    } else {
        digit_runs(text.skip(1))
    }
}

/// Every run of digits in a text is a non-empty text of digits.
pub proof fn digit_runs_are_digits(text: Seq<char>)
    ensures
        forall|i: int| 0 <= i < digit_runs(text).len() ==> is_digits(#[trigger] digit_runs(text)[i]),
    decreases text.len(),
{
    if text.len() > 0 {
        leading_digits_are_digits(text);
        if is_digit(text[0]) {
            let len = leading_digits(text) as int;
            let first = text.take(len);
            digit_runs_are_digits(text.skip(len));
            assert forall|i: int| 0 <= i < digit_runs(text).len() implies is_digits(
                #[trigger] digit_runs(text)[i],
            ) by {
                if i == 0 {
                    assert forall|j: int| 0 <= j < first.len() implies is_digit(
                        #[trigger] first[j],
                    ) by {
                        assert(first[j] == text[j]);
                    }
                } else {
                    assert(digit_runs(text)[i] == digit_runs(text.skip(len))[i - 1]);
                }
            }
        } else {
            digit_runs_are_digits(text.skip(1));
            assert(digit_runs(text) == digit_runs(text.skip(1)));
        }
    }
}

/// The runs of digits in `text`, each as a string.
pub fn runs_of_digits(text: &str) -> (runs: Vec<String>)
    ensures
        text_views(runs@) == digit_runs(text@),
{
    let chars = chars_of(text);
    let mut runs: Vec<String> = Vec::new();
    let mut at: usize = 0;
    assert(text@.skip(0) =~= text@);
    assert(text_views(runs@) + digit_runs(text@) =~= digit_runs(text@));
    while at < chars.len()
        invariant
            at <= chars@.len(),
            chars@ == text@,
            digit_runs(text@) == text_views(runs@) + digit_runs(text@.skip(at as int)),
        decreases chars@.len() - at,
    {
        let ghost rest = text@.skip(at as int);
        let ghost before = runs@;
        let c = chars[at];
        assert(rest[0] == c);
        if '0' <= c && c <= '9' {
            let mut end: usize = at;
            while end < chars.len() && '0' <= chars[end] && chars[end] <= '9'
                invariant
                    at <= end <= chars@.len(),
                    chars@ == text@,
                    rest == text@.skip(at as int),
                    leading_digits(rest) == (end - at) + leading_digits(text@.skip(end as int)),
                decreases chars@.len() - end,
            {
                assert(text@.skip(end as int).skip(1) =~= text@.skip(end + 1));
                assert(text@.skip(end as int)[0] == text@[end as int]);
                end = end + 1;
            }
            proof {
                if end < chars@.len() {
                    assert(text@.skip(end as int)[0] == text@[end as int]);
                }
                assert(leading_digits(text@.skip(end as int)) == 0);
                assert(leading_digits(rest) >= 1);
            }
            let run = string_of_range(&chars, at, end);
            runs.push(run);
            proof {
                let len = leading_digits(rest) as int;
                assert(rest.take(len) =~= run@);
                assert(rest.skip(len) =~= text@.skip(end as int));
                assert(text_views(runs@) =~= text_views(before).push(run@));
                assert(text_views(before) + (seq![run@] + digit_runs(text@.skip(end as int)))
                    =~= text_views(runs@) + digit_runs(text@.skip(end as int)));
            }
            at = end;
        } else {
            assert(rest.skip(1) =~= text@.skip(at + 1));
            at = at + 1;
        }
    }
    assert(text@.skip(at as int).len() == 0);
    assert(digit_runs(text@) =~= text_views(runs@));
    runs
}

// ---------------------------------------------------------------------------
// What holds of digits and numbers
// ---------------------------------------------------------------------------

/// The digits are the ten characters from `0` to `9`, each with the value of
/// its place among them.
pub proof fn digits_are_the_ten_digits(c: char)
    ensures
        is_digit(c) <==> "0123456789"@.contains(c),
        is_digit(c) ==> digit_value(c) < 10 && "0123456789"@[digit_value(c) as int] == c
            && digit_char(digit_value(c)) == c,
{
    reveal_strlit("0123456789");
    let digits = "0123456789"@;
    assert(digits =~= seq!['0', '1', '2', '3', '4', '5', '6', '7', '8', '9']);
    if is_digit(c) {
        let value = digit_value(c) as int;
        assert(digits[value] == c);
    }
    if digits.contains(c) {
        let i = choose|i: int| 0 <= i < digits.len() && digits[i] == c;
        assert(is_digit(digits[i]));
    }
}

/// A digit at the end of a text counts once, and everything before it ten
/// times as much.
pub proof fn numbers_are_read_by_place(front: Seq<char>, c: char)
    ensures
        number(Seq::<char>::empty()) == 0,
        number(seq![c]) == digit_value(c),
        number(front.push(c)) == 10 * number(front) + digit_value(c),
{
    assert(seq![c].drop_last() =~= Seq::<char>::empty());
    assert(number(seq![c].drop_last()) == 0);
    assert(front.push(c).drop_last() =~= front);
}

/// Digits, with a plus sign before them or not, are read as the number that
/// they stand for, unless it is too large; nothing else is read.
pub proof fn unsigned_numbers_are_read(text: Seq<char>, digits: Seq<char>, max: nat)
    ensures
        is_digits(digits) && (text == digits || text == "+"@ + digits) ==> unsigned_number(text, max)
            == if number(digits) <= max {
            Some(number(digits))
        } else {
            None
        },
        unsigned_number(text, max) is Some ==> is_digits(text) || (text.len() > 1 && text[0] == '+'
            && is_digits(text.skip(1))),
{
    reveal_strlit("+");
    if is_digits(digits) {
        assert(is_digit(digits[0]));
        assert(("+"@ + digits).skip(1) =~= digits);
    }
}

/// Digits, with a sign before them or not, are read as the number that they
/// stand for, negative behind a minus sign, unless it does not fit in 64 bits;
/// nothing else is read.
pub proof fn signed_numbers_are_read(text: Seq<char>, digits: Seq<char>)
    ensures
        is_digits(digits) && (text == digits || text == "+"@ + digits) ==> signed_number(text)
            == if number(digits) <= 0x7fff_ffff_ffff_ffff {
            Some(number(digits) as int)
        } else {
            None
        },
        is_digits(digits) && text == "-"@ + digits ==> signed_number(text) == if number(digits)
            <= 0x8000_0000_0000_0000 {
            Some(-number(digits))
        } else {
            None
        },
        signed_number(text) is Some ==> is_digits(text) || (text.len() > 1 && (text[0] == '+'
            || text[0] == '-') && is_digits(text.skip(1))),
{
    reveal_strlit("+");
    reveal_strlit("-");
    unsigned_numbers_are_read(text, digits, i64::MAX as nat);
    if is_digits(digits) {
        assert(is_digit(digits[0]));
        assert(("-"@ + digits).skip(1) =~= digits);
    }
}

/// Where nothing but other characters stands before some digits, and no digit
/// behind them, they are the first run; the others are those of the rest.
pub proof fn runs_are_found_in_order(before: Seq<char>, run: Seq<char>, after: Seq<char>)
    requires
        forall|i: int| 0 <= i < before.len() ==> !is_digit(#[trigger] before[i]),
        is_digits(run),
        after.len() > 0 ==> !is_digit(after[0]),
    ensures
        digit_runs(before + run + after) == seq![run] + digit_runs(after),
{
    other_characters_are_skipped(before, run + after);
    assert(before + run + after =~= before + (run + after));
    let text = run + after;
    leading_digits_are_digits(text);
    let len = leading_digits(text) as int;
    assert(is_digit(run[0]));
    if len < run.len() {
        assert(is_digit(run[len]));
        assert(text[len] == run[len]);
    }
    if len > run.len() {
        assert(text[run.len() as int] == after[0]);
    }
    assert(text.take(len) =~= run);
    assert(text.skip(len) =~= after);
}

/// Characters other than digits make no run, and the runs behind them are
/// found as they are.
pub proof fn other_characters_are_skipped(before: Seq<char>, text: Seq<char>)
    requires
        forall|i: int| 0 <= i < before.len() ==> !is_digit(#[trigger] before[i]),
    ensures
        digit_runs(before + text) == digit_runs(text),
        digit_runs(before).len() == 0,
    decreases before.len(),
{
    if before.len() == 0 {
        assert(before + text =~= text);
    } else {
        let rest = before.skip(1);
        assert forall|i: int| 0 <= i < rest.len() implies !is_digit(#[trigger] rest[i]) by {
            assert(rest[i] == before[i + 1]);
        }
        other_characters_are_skipped(rest, text);
        assert(!is_digit(before[0]));
        assert((before + text)[0] == before[0]);
        assert((before + text).skip(1) =~= rest + text);
    }
}

} // verus!
