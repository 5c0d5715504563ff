//! Whole numbers in decimal notation.
//!
//! A text counts as a number only where it is exactly the notation of one:
//! digits without a leading zero, behind a minus sign for a negative number.
//! So a number that was read from a text is written back as that text.

use vstd::prelude::*;

verus! {

/// The character of the digit `d`.
pub open spec fn digit_char(d: int) -> char {
    (d + 48) as char
}

/// The character is a decimal digit.
pub open spec fn is_digit(c: char) -> bool {
    48 <= c as int <= 57
}

/// The decimal notation of a natural number.
pub open spec fn digits(n: nat) -> Seq<char>
    decreases n,
{
    if n < 10 {
        seq![digit_char(n as int)]
    } else {
        digits(n / 10).push(digit_char((n % 10) as int))
    }
}

/// The decimal notation of an integer.
pub open spec fn decimal(n: int) -> Seq<char> {
    if n < 0 {
        seq!['-'] + digits((-n) as nat)
    } else {
        digits(n as nat)
    }
}

/// The number that a row of digits denotes.
pub open spec fn value(s: Seq<char>) -> nat
    decreases s.len(),
{
    if s.len() == 0 {
        0
    } else {
        (value(s.drop_last()) * 10 + (s.last() as int - 48)) as nat
    }
}

/// A row of digits as `digits` writes it: not empty, and without a leading
/// zero unless it is the single digit zero.
pub open spec fn canonical(s: Seq<char>) -> bool {
    &&& s.len() >= 1
    &&& forall|i: int| 0 <= i < s.len() ==> is_digit(#[trigger] s[i])
    &&& s.len() >= 2 ==> s[0] != '0'
}

/// `digits` writes canonical rows, and the row it writes denotes the number.
pub proof fn lemma_digits_canonical(n: nat)
    ensures
        canonical(digits(n)),
        value(digits(n)) == n,
        n >= 10 ==> digits(n).len() >= 2,
        n >= 1 ==> digits(n)[0] != '0',
    decreases n,
{
    if n < 10 {
        let s = digits(n);
        assert(s.drop_last() =~= Seq::empty());
        assert(value(s.drop_last()) == 0);
    } else {
        lemma_digits_canonical(n / 10);
        let front = digits(n / 10);
        let s = front.push(digit_char((n % 10) as int));
        assert(s.drop_last() =~= front);
        assert(s[0] == front[0]);
    }
}

/// A canonical row is the notation of the number it denotes.
pub proof fn lemma_canonical_digits(s: Seq<char>)
    requires
        canonical(s),
    ensures
        digits(value(s)) == s,
        s[0] != '0' ==> value(s) >= 1,
    decreases s.len(),
{
    let front = s.drop_last();
    let d = s.last() as int - 48;
    if s.len() == 1 {
        assert(front =~= Seq::empty());
        assert(value(front) == 0);
        assert(digits(value(s)) =~= s);
    } else {
        assert(front[0] == s[0]);
        assert forall|i: int| 0 <= i < front.len() implies is_digit(#[trigger] front[i]) by {
            assert(front[i] == s[i]);
        }
        lemma_canonical_digits(front);
        let v = value(front);
        assert(value(s) == v * 10 + d);
        assert((v * 10 + d) / 10 == v);
        assert((v * 10 + d) % 10 == d);
        assert(digits(value(s)) =~= s);
    }
}

/// A row of digits denotes at least what any of its beginnings denotes.
pub proof fn lemma_value_grows(s: Seq<char>, k: int)
    requires
        0 <= k <= s.len(),
        forall|i: int| 0 <= i < s.len() ==> is_digit(#[trigger] s[i]),
    ensures
        value(s.take(k)) <= value(s),
    decreases s.len() - k,
{
    if k == s.len() {
        assert(s.take(k) =~= s);
    } else {
        let front = s.drop_last();
        assert(is_digit(s[s.len() - 1]));
        assert forall|i: int| 0 <= i < front.len() implies is_digit(#[trigger] front[i]) by {
            assert(front[i] == s[i]);
        }
        lemma_value_grows(front, k);
        assert(front.take(k) =~= s.take(k));
    }
}

/// What the notation of an integer looks like: the canonical row of its
/// magnitude, behind a minus sign where it is negative.
pub proof fn lemma_decimal_shape(n: int)
    ensures
        n >= 0 ==> canonical(decimal(n)) && value(decimal(n)) == n,
        n < 0 ==> decimal(n).len() >= 2 && decimal(n)[0] == '-' && canonical(
            decimal(n).drop_first(),
        ) && value(decimal(n).drop_first()) == -n,
{
    if n >= 0 {
        lemma_digits_canonical(n as nat);
    } else {
        lemma_digits_canonical((-n) as nat);
        assert(decimal(n).drop_first() =~= digits((-n) as nat));
    }
}

/// Different integers are written differently.
pub proof fn lemma_decimal_injective(a: int, b: int)
    requires
        decimal(a) == decimal(b),
    ensures
        a == b,
{
    lemma_decimal_shape(a);
    lemma_decimal_shape(b);
    if a >= 0 && b < 0 {
        assert(is_digit(decimal(a)[0]));
    }
    if a < 0 && b >= 0 {
        assert(is_digit(decimal(b)[0]));
    }
}

/// The digits of a text that is the notation of `n`: the whole text, or what
/// follows the minus sign.
pub open spec fn digit_row(text: Seq<char>) -> Seq<char> {
    if text.len() >= 1 && text[0] == '-' {
        text.drop_first()
    } else {
        text
    }
}

/// A text that is the notation of `n` begins with a minus sign exactly where
/// `n` is negative, and its digits are the canonical row of the magnitude.
pub proof fn lemma_notation_read_back(text: Seq<char>, n: int)
    requires
        decimal(n) == text,
    ensures
        text.len() >= 1,
        (text[0] == '-') == (n < 0),
        canonical(digit_row(text)),
        n < 0 ==> value(digit_row(text)) == -n,
        n >= 0 ==> value(digit_row(text)) == n,
{
    lemma_decimal_shape(n);
    if n >= 0 {
        assert(is_digit(text[0]));
    }
}

/// Reads a text as a whole number of 64 bits. The text is read as `n` if and
/// only if it is the decimal notation of `n`; a text that is the notation of
/// no such number is not read at all.
pub fn parse(text: &str) -> (number: Option<i64>)
    ensures
        match number {
            Some(n) => decimal(n as int) == text@,
            None => forall|n: i64| decimal(n as int) != text@,
        },
{
    let len: usize = text.unicode_len();
    if len == 0 {
        assert forall|n: i64| decimal(n as int) != text@ by {
            if decimal(n as int) == text@ {
                lemma_notation_read_back(text@, n as int);
            }
        }
        return None;
    }
    let negative: bool = text.get_char(0) == '-';
    let start: usize = if negative { 1 } else { 0 };
    let ghost row = digit_row(text@);
    assert(row =~= text@.subrange(start as int, len as int));
    if start == len || (len - start >= 2 && text.get_char(start) == '0') {
        assert forall|n: i64| decimal(n as int) != text@ by {
            if decimal(n as int) == text@ {
                lemma_notation_read_back(text@, n as int);
            }
        }
        return None;
    }
    let limit: u64 = if negative { 9223372036854775808 } else { 9223372036854775807 };
    let mut acc: u64 = 0;
    let mut i: usize = start;
    assert(row.take(0) =~= Seq::empty());
    while i < len
        invariant
            start <= i <= len,
            len == text@.len(),
            row == text@.subrange(start as int, len as int),
            row == digit_row(text@),
            acc == value(row.take(i - start)),
            acc <= limit,
            negative == (text@[0] == '-'),
            limit == if negative { 9223372036854775808u64 } else { 9223372036854775807u64 },
            forall|k: int| 0 <= k < i - start ==> is_digit(#[trigger] row[k]),
        decreases len - i,
    {
        let c: char = text.get_char(i);
        let code: u32 = c as u32;
        if code < 48 || code > 57 {
            assert forall|n: i64| decimal(n as int) != text@ by {
                if decimal(n as int) == text@ {
                    lemma_notation_read_back(text@, n as int);
                    assert(is_digit(row[i - start]));
                }
            }
            return None;
        }
        let d: u64 = (code - 48) as u64;
        let ghost longer = row.take(i - start + 1);
        proof {
            assert(longer.drop_last() =~= row.take(i - start));
            assert(longer.last() == c);
            assert(value(longer) == acc * 10 + d);
        }
        if acc > (limit - d) / 10 {
            assert(acc * 10 + d > limit);
            assert forall|n: i64| decimal(n as int) != text@ by {
                if decimal(n as int) == text@ {
                    lemma_notation_read_back(text@, n as int);
                    lemma_value_grows(row, i - start + 1);
                }
            }
            return None;
        }
        acc = acc * 10 + d;
        i += 1;
    }
    proof {
        assert(row.take(len - start) =~= row);
        lemma_canonical_digits(row);
    }
    if negative {
        if acc == 0 {
            assert forall|n: i64| decimal(n as int) != text@ by {
                if decimal(n as int) == text@ {
                    lemma_notation_read_back(text@, n as int);
                }
            }
            None
        } else {
            let n: i64 = if acc == 9223372036854775808 { i64::MIN } else { -(acc as i64) };
            assert(decimal(n as int) =~= text@);
            Some(n)
        }
    } else {
        Some(acc as i64)
    }
}

} // verus!
