//! Decimal numerals: integers written out and read back.
use vstd::prelude::*;
use crate::text::to_chars;

verus! {

/// The character of a digit.
pub open spec fn digit_char(d: nat) -> char {
    (48 + d) as char
}

/// A natural number in decimal.
pub open spec fn decimal_nat(n: nat) -> Seq<char>
    decreases n,
{
    if n < 10 {
        seq![digit_char(n)]
    } else {
        decimal_nat(n / 10).push(digit_char(n % 10))
    }
}

/// An integer in decimal.
pub open spec fn decimal(n: int) -> Seq<char> {
    if n < 0 {
        seq!['-'] + decimal_nat((-n) as nat)
    } else {
        decimal_nat(n as nat)
    }
}

fn push_decimal(s: &mut String, n: u64)
    ensures
        final(s)@ == old(s)@ + decimal_nat(n as nat),
    decreases n,
{
    let d: u8 = (n % 10) as u8;
    let c: char = (48u8 + d) as char;
    if n >= 10 {
        push_decimal(s, n / 10);
    }
    s.push(c);
    assert(final(s)@ =~= old(s)@ + decimal_nat(n as nat));
}

/// An unsigned number in decimal.
pub fn u64_text(n: u64) -> (s: String)
    ensures
        s@ == decimal(n as int),
{
    let mut s = String::new();
    push_decimal(&mut s, n);
    assert(s@ =~= decimal(n as int));
    s
}

/// A signed number in decimal.
pub fn i64_text(n: i64) -> (s: String)
    ensures
        s@ == decimal(n as int),
{
    let mut s = String::new();
    if n < 0 {
        s.push('-');
        if n == i64::MIN {
            push_decimal(&mut s, 9223372036854775808u64);
        } else {
            push_decimal(&mut s, (-n) as u64);
        }
    } else {
        push_decimal(&mut s, n as u64);
    }
    assert(s@ =~= decimal(n as int));
    s
}

/// The characters `0` to `9`.
pub open spec fn is_digit(c: char) -> bool {
    '0' <= c <= '9'
}

/// One digit or more, and nothing else.
pub open spec fn is_numeral(s: Seq<char>) -> bool {
    s.len() > 0 && forall|i: int| 0 <= i < s.len() ==> is_digit(#[trigger] s[i])
}

/// The number that digits stand for.
pub open spec fn numeral_value(s: Seq<char>) -> nat
    decreases s.len(),
{
    if s.len() == 0 {
        0
    } else {
        10 * numeral_value(s.drop_last()) + (s.last() as nat - 48) as nat
    }
}

/// The digits of a text, without the sign that it may start with.
pub open spec fn unsigned_part(s: Seq<char>) -> Seq<char> {
    if s.len() > 0 && (s[0] == '-' || s[0] == '+') {
        s.skip(1)
    } else {
        s
    }
}

/// The integer that a text stands for: an optional sign and digits.
pub open spec fn integer_value(s: Seq<char>) -> int {
    if s.len() > 0 && s[0] == '-' {
        -(numeral_value(unsigned_part(s)) as int)
    } else {
        numeral_value(unsigned_part(s)) as int
    }
}

/// The `i64` that a text stands for, if it is an integer and fits.
pub open spec fn i64_of(s: Seq<char>) -> Option<i64> {
    if is_numeral(unsigned_part(s)) && i64::MIN <= integer_value(s) <= i64::MAX {
        Some(integer_value(s) as i64)
    } else {
        None
    }
}

proof fn lemma_prefix_not_larger(s: Seq<char>, n: int)
    requires
        0 <= n <= s.len(),
    ensures
        numeral_value(s.take(n)) <= numeral_value(s),
    decreases s.len(),
{
    if n < s.len() {
        lemma_prefix_not_larger(s.drop_last(), n);
        assert(s.drop_last().take(n) =~= s.take(n));
    } else {
        assert(s.take(n) =~= s);
    }
}

/// Reads an `i64` in decimal.
pub fn parse_i64(s: &str) -> (n: Option<i64>)
    ensures
        n == i64_of(s@),
{
    let chars = to_chars(s);
    let negative: bool = chars.len() > 0 && chars[0] == '-';
    let start: usize = if chars.len() > 0 && (chars[0] == '-' || chars[0] == '+') {
        1
    } else {
        0
    };
    let ghost digits = unsigned_part(s@);
    assert(digits =~= chars@.skip(start as int));
    if start == chars.len() {
        return None;
    }
    let mut value: u64 = 0;
    let mut i: usize = start;
    assert(digits.take(0) =~= Seq::<char>::empty());
    while i < chars.len()
        invariant
            start <= i <= chars@.len(),
            start <= 1,
            chars@ == s@,
            digits == unsigned_part(s@),
            digits == chars@.skip(start as int),
            negative == (s@.len() > 0 && s@[0] == '-'),
            value == numeral_value(digits.take(i - start)),
            value <= 9223372036854775808,
            forall|j: int| 0 <= j < i - start ==> is_digit(#[trigger] digits[j]),
        decreases chars@.len() - i,
    {
        let c: char = chars[i];
        assert(digits[i - start] == c);
        if c < '0' || c > '9' {
            assert(!is_digit(digits[i - start]));
            return None;
        }
        let d: u64 = (c as u32 - 48) as u64;
        assert(digits.take(i + 1 - start).drop_last() =~= digits.take(i - start));
        proof {
            lemma_prefix_not_larger(digits, i + 1 - start);
        }
        if value > 922337203685477580 || value * 10 + d > 9223372036854775808 {
            return None;
        }
        value = value * 10 + d;
        i = i + 1;
    }
    assert(digits.take(digits.len() as int) =~= digits);
    if negative {
        if value == 9223372036854775808 {
            Some(i64::MIN)
        } else {
            Some(-(value as i64))
        }
    } else if value == 9223372036854775808 {
        None
    } else {
        Some(value as i64)
    }
}

proof fn lemma_decimal_nat(n: nat)
    ensures
        is_numeral(decimal_nat(n)),
        numeral_value(decimal_nat(n)) == n,
    decreases n,
{
    if n < 10 {
        assert(decimal_nat(n).drop_last() =~= Seq::<char>::empty());
        assert(numeral_value(Seq::<char>::empty()) == 0);
    } else {
        lemma_decimal_nat(n / 10);
        assert(decimal_nat(n).drop_last() =~= decimal_nat(n / 10));
    }
}

/// Reading back what was written out gives the number again.
pub proof fn decimal_reads_back(n: i64)
    ensures
        i64_of(decimal(n as int)) == Some(n),
{
    let s = decimal(n as int);
    if n < 0 {
        lemma_decimal_nat((-n) as nat);
        assert(unsigned_part(s) =~= decimal_nat((-n) as nat));
    } else {
        lemma_decimal_nat(n as nat);
        assert(is_digit(s[0]));
    }
}

/// Two numbers that are written alike are equal, whatever stands around them.
pub proof fn numbers_are_written_apart(
    before: Seq<char>,
    one: i64,
    other: i64,
    after: Seq<char>,
)
    requires
        before + decimal(one as int) + after == before + decimal(other as int) + after,
    ensures
        one == other,
{
    let a = decimal(one as int);
    let b = decimal(other as int);
    let all = before + a + after;
    let again = before + b + after;
    assert(all.len() == again.len());
    assert(a =~= all.subrange(before.len() as int, (before.len() + a.len()) as int));
    assert(b =~= again.subrange(before.len() as int, (before.len() + b.len()) as int));
    decimal_reads_back(one);
    decimal_reads_back(other);
}

/// A numeral is read digit by digit: one digit more is ten times the number and the digit. A
/// plus sign changes nothing, a minus sign turns the number round.
pub proof fn a_numeral_is_read_digit_by_digit(digits: Seq<char>, n: i64, digit: char)
    requires
        forall|i: int| 0 <= i < digits.len() ==> '0' <= #[trigger] digits[i] <= '9',
        '0' <= digit <= '9',
        i64_of(digits) == Some(n),
    ensures
        n >= 0,
        i64_of(digits.push(digit)) == if 10 * n + (digit as int - 48) <= i64::MAX {
            Some((10 * n + (digit as int - 48)) as i64)
        } else {
            None
        },
        i64_of(seq!['+'] + digits) == Some(n),
        i64_of(seq!['-'] + digits) == Some((-n) as i64),
        i64_of(seq![digit]) == Some((digit as int - 48) as i64),
{
    let more = digits.push(digit);
    assert(is_digit(digits[0]));
    assert(unsigned_part(digits) == digits);
    assert(more[0] == digits[0]);
    assert(unsigned_part(more) == more);
    assert(more.drop_last() =~= digits);
    assert forall|i: int| 0 <= i < more.len() implies is_digit(#[trigger] more[i]) by {
        if i < digits.len() {
            assert('0' <= digits[i] <= '9');
        }
    }
    assert((seq!['+'] + digits).skip(1) =~= digits);
    assert((seq!['-'] + digits).skip(1) =~= digits);
    let single = seq![digit];
    assert(unsigned_part(single) == single);
    assert(single.drop_last() =~= Seq::<char>::empty());
    assert(numeral_value(Seq::empty()) == 0);
    assert(numeral_value(single) == (digit as nat - 48) as nat);
}

/// What is read as a number is a sign, if any, and digits.
pub proof fn only_numerals_are_read(text: Seq<char>)
    requires
        i64_of(text) is Some,
    ensures
        text.len() > 0,
        text[0] == '-' || text[0] == '+' ==> text.len() > 1,
        text[0] == '-' || text[0] == '+' || '0' <= text[0] <= '9',
        forall|i: int| 0 < i < text.len() ==> '0' <= #[trigger] text[i] <= '9',
        if text[0] == '-' {
            i64_of(text)->0 <= 0
        } else {
            i64_of(text)->0 >= 0
        },
{
    let digits = unsigned_part(text);
    if text[0] == '-' || text[0] == '+' {
        assert(digits == text.skip(1));
        assert forall|i: int| 0 < i < text.len() implies '0' <= #[trigger] text[i] <= '9' by {
            assert(is_digit(digits[i - 1]));
        }
    } else {
        assert(is_digit(digits[0]));
        assert forall|i: int| 0 < i < text.len() implies '0' <= #[trigger] text[i] <= '9' by {
            assert(is_digit(digits[i]));
        }
    }
}

/// A number that is not negative is written with digits alone, without a zero in front of others.
pub proof fn numbers_are_written_in_digits(n: nat)
    ensures
        decimal(n as int).len() > 0,
        forall|i: int|
            0 <= i < decimal(n as int).len() ==> '0' <= #[trigger] decimal(n as int)[i] <= '9',
        decimal(n as int)[0] == '0' ==> n == 0,
        n > 0 ==> decimal(-(n as int)) == seq!['-'] + decimal(n as int),
        n >= 10 ==> decimal(n as int).drop_last() == decimal((n / 10) as int),
        decimal(n as int).last() as int - 48 == n % 10,
    decreases n,
{
    if n >= 10 {
        numbers_are_written_in_digits(n / 10);
        let head = decimal((n / 10) as int);
        let all = decimal(n as int);
        assert(all.drop_last() =~= head);
        assert forall|i: int| 0 <= i < all.len() implies '0' <= #[trigger] all[i] <= '9' by {
            if i < head.len() {
                assert(all[i] == head[i]);
            }
        }
        assert(all[0] == head[0]);
    }
}

} // verus!
