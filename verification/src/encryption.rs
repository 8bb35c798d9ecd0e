//! The encryption of a password with a public key: a power of a number, to a modulus.
use vstd::arithmetic::div_mod::{
    lemma_add_mod_noop, lemma_fundamental_div_mod_converse, lemma_mod_add_multiples_vanish,
    lemma_mod_twice, lemma_mul_mod_noop, lemma_small_mod,
};
use vstd::arithmetic::power::{lemma_pow0, lemma_pow1, lemma_pow_adds, lemma_pow_mod_noop, pow};
use vstd::arithmetic::power2::{lemma2_to64, lemma_pow2_pos, lemma_pow2_unfold, pow2};
use vstd::prelude::*;
use vstd::utf8::encode_utf8;
use crate::text::to_chars;

verus! {

// ---------------------------------------------------------------- numbers as bits

/// One bit as a number.
pub open spec fn bit(b: bool) -> nat {
    if b {
        1
    } else {
        0
    }
}

/// The number that bits stand for, the lowest first.
pub open spec fn bits_value(bits: Seq<bool>) -> nat
    decreases bits.len(),
{
    if bits.len() == 0 {
        0
    } else {
        bit(bits[0]) + 2 * bits_value(bits.skip(1))
    }
}

proof fn bit_times(b: bool, p: nat)
    ensures
        bit(b) * p == if b {
            p
        } else {
            0
        },
{
    assert(1 * p == p) by (nonlinear_arith);
    assert(0 * p == 0) by (nonlinear_arith);
}

/// One bit more at the upper end.
proof fn value_of_push(bits: Seq<bool>, b: bool)
    ensures
        bits_value(bits.push(b)) == bits_value(bits) + bit(b) * pow2(bits.len()),
    decreases bits.len(),
{
    lemma2_to64();
    let pushed = bits.push(b);
    bit_times(b, pow2(bits.len()));
    if bits.len() == 0 {
        assert(pushed.skip(1) =~= Seq::<bool>::empty());
        assert(bits_value(pushed.skip(1)) == 0);
    } else {
        value_of_push(bits.skip(1), b);
        assert(pushed.skip(1) =~= bits.skip(1).push(b));
        lemma_pow2_unfold(bits.len());
        bit_times(b, pow2((bits.len() - 1) as nat));
    }
}

/// Bits stand for less than the power of two of their number.
proof fn value_is_bounded(bits: Seq<bool>)
    ensures
        bits_value(bits) < pow2(bits.len()),
    decreases bits.len(),
{
    lemma2_to64();
    if bits.len() > 0 {
        value_is_bounded(bits.skip(1));
        lemma_pow2_unfold(bits.len());
    }
}

/// The bit of a number at a place; above its bits there is nothing.
spec fn bit_at(bits: Seq<bool>, i: int) -> bool {
    0 <= i < bits.len() && bits[i]
}

/// The lowest bits of a number, filled up with nothing.
spec fn lowest(bits: Seq<bool>, n: nat) -> Seq<bool> {
    Seq::new(n, |i: int| bit_at(bits, i))
}

proof fn lowest_step(bits: Seq<bool>, n: nat)
    ensures
        bits_value(lowest(bits, n + 1)) == bits_value(lowest(bits, n)) + bit(
            bit_at(bits, n as int),
        ) * pow2(n),
{
    assert(lowest(bits, n + 1) =~= lowest(bits, n).push(bit_at(bits, n as int)));
    value_of_push(lowest(bits, n), bit_at(bits, n as int));
}

proof fn lowest_is_all(bits: Seq<bool>, n: nat)
    requires
        n >= bits.len(),
    ensures
        bits_value(lowest(bits, n)) == bits_value(bits),
    decreases n,
{
    if n == bits.len() {
        assert(lowest(bits, n) =~= bits);
    } else {
        lowest_step(bits, (n - 1) as nat);
        lowest_is_all(bits, (n - 1) as nat);
    }
}

fn get_bit(bits: &Vec<bool>, i: usize) -> (b: bool)
    ensures
        b == bit_at(bits@, i as int),
{
    i < bits.len() && bits[i]
}

fn longer(a: &Vec<bool>, b: &Vec<bool>) -> (n: usize)
    ensures
        n >= a@.len(),
        n >= b@.len(),
{
    if a.len() < b.len() {
        b.len()
    } else {
        a.len()
    }
}

/// The sum of two numbers.
fn sum(a: &Vec<bool>, b: &Vec<bool>) -> (total: Vec<bool>)
    ensures
        bits_value(total@) == bits_value(a@) + bits_value(b@),
{
    let n: usize = longer(a, b);
    let mut total: Vec<bool> = Vec::new();
    let mut carry = false;
    proof {
        lemma2_to64();
        assert(lowest(a@, 0) =~= Seq::<bool>::empty());
        assert(lowest(b@, 0) =~= Seq::<bool>::empty());
    }
    for i in 0..n
        invariant
            total@.len() == i,
            bits_value(total@) + bit(carry) * pow2(i as nat) == bits_value(lowest(a@, i as nat))
                + bits_value(lowest(b@, i as nat)),
    {
        let x = get_bit(a, i);
        let y = get_bit(b, i);
        let ghost before = total@;
        let ghost carried = carry;
        let digit = (x != y) != carry;
        carry = (x && y) || (carry && (x || y));
        total.push(digit);
        proof {
            lowest_step(a@, i as nat);
            lowest_step(b@, i as nat);
            value_of_push(before, digit);
            lemma_pow2_unfold((i + 1) as nat);
            assert(bit(x) + bit(y) + bit(carried) == bit(digit) + 2 * bit(carry));
            let p = pow2(i as nat) as int;
            assert(bit(x) * p + bit(y) * p + bit(carried) * p == bit(digit) * p + bit(carry) * (2
                * p)) by (nonlinear_arith)
                requires
                    bit(x) + bit(y) + bit(carried) == bit(digit) + 2 * bit(carry),
            ;
        }
    }
    let ghost before = total@;
    total.push(carry);
    proof {
        value_of_push(before, carry);
        lowest_is_all(a@, n as nat);
        lowest_is_all(b@, n as nat);
    }
    total
}

/// The difference of two numbers, if the first is not less than the second.
fn difference(a: &Vec<bool>, b: &Vec<bool>) -> (rest: Option<Vec<bool>>)
    ensures
        match rest {
            Some(rest) => bits_value(rest@) + bits_value(b@) == bits_value(a@),
            None => bits_value(a@) < bits_value(b@),
        },
{
    let n: usize = longer(a, b);
    let mut rest: Vec<bool> = Vec::new();
    let mut borrow = false;
    proof {
        lemma2_to64();
        assert(lowest(a@, 0) =~= Seq::<bool>::empty());
        assert(lowest(b@, 0) =~= Seq::<bool>::empty());
    }
    for i in 0..n
        invariant
            rest@.len() == i,
            bits_value(rest@) + bits_value(lowest(b@, i as nat)) == bits_value(
                lowest(a@, i as nat),
            ) + bit(borrow) * pow2(i as nat),
    {
        let x = get_bit(a, i);
        let y = get_bit(b, i);
        let ghost before = rest@;
        let ghost borrowed = borrow;
        let digit = (x != y) != borrow;
        borrow = (!x && (y || borrow)) || (y && borrow);
        rest.push(digit);
        proof {
            lowest_step(a@, i as nat);
            lowest_step(b@, i as nat);
            value_of_push(before, digit);
            lemma_pow2_unfold((i + 1) as nat);
            assert(bit(digit) + bit(y) + bit(borrowed) == bit(x) + 2 * bit(borrow));
            let p = pow2(i as nat) as int;
            assert(bit(digit) * p + bit(y) * p + bit(borrowed) * p == bit(x) * p + bit(borrow) * (2
                * p)) by (nonlinear_arith)
                requires
                    bit(digit) + bit(y) + bit(borrowed) == bit(x) + 2 * bit(borrow),
            ;
        }
    }
    proof {
        lowest_is_all(a@, n as nat);
        lowest_is_all(b@, n as nat);
        value_is_bounded(rest@);
    }
    if borrow {
        None
    } else {
        Some(rest)
    }
}

/// The same number without zeros at its upper end.
fn trimmed(bits: Vec<bool>) -> (short: Vec<bool>)
    ensures
        bits_value(short@) == bits_value(bits@),
        short@.len() > 0 ==> short@.last(),
{
    let mut short = bits;
    while short.len() > 0 && !short[short.len() - 1]
        invariant
            bits_value(short@) == bits_value(bits@),
        decreases short@.len(),
    {
        let ghost before = short@;
        short.pop();
        proof {
            value_of_push(short@, false);
            assert(short@.push(false) =~= before);
        }
    }
    short
}

// ---------------------------------------------------------------- numbers to a modulus

/// A number below twice the modulus, to the modulus.
fn reduced(bits: Vec<bool>, modulus: &Vec<bool>) -> (rest: Vec<bool>)
    requires
        bits_value(bits@) < 2 * bits_value(modulus@),
    ensures
        bits_value(rest@) == bits_value(bits@) % bits_value(modulus@),
{
    let ghost x = bits_value(bits@);
    let ghost n = bits_value(modulus@);
    match difference(&bits, modulus) {
        Some(rest) => {
            proof {
                lemma_mod_add_multiples_vanish(x - n, n as int);
                lemma_small_mod((x - n) as nat, n);
            }
            trimmed(rest)
        },
        None => {
            proof {
                lemma_small_mod(x, n);
            }
            trimmed(bits)
        },
    }
}

/// Twice a number and a bit, to the modulus.
fn shifted(bits: &Vec<bool>, b: bool, modulus: &Vec<bool>) -> (rest: Vec<bool>)
    requires
        bits_value(bits@) < bits_value(modulus@),
    ensures
        bits_value(rest@) == (2 * bits_value(bits@) + bit(b)) % bits_value(modulus@),
        bits_value(rest@) < bits_value(modulus@),
{
    let mut all: Vec<bool> = Vec::new();
    all.push(b);
    for i in 0..bits.len()
        invariant
            all@ == seq![b] + bits@.take(i as int),
    {
        all.push(bits[i]);
        assert(all@ =~= seq![b] + bits@.take(i + 1));
    }
    assert(bits@.take(bits@.len() as int) =~= bits@);
    assert(all@.skip(1) =~= bits@);
    reduced(all, modulus)
}

/// The product of two numbers, to the modulus.
fn product(a: &Vec<bool>, b: &Vec<bool>, modulus: &Vec<bool>) -> (rest: Vec<bool>)
    requires
        bits_value(a@) < bits_value(modulus@),
    ensures
        bits_value(rest@) == (bits_value(a@) * bits_value(b@)) % bits_value(modulus@),
        bits_value(rest@) < bits_value(modulus@),
{
    let ghost x = bits_value(a@) as int;
    let ghost n = bits_value(modulus@) as int;
    let mut rest: Vec<bool> = Vec::new();
    let mut i: usize = b.len();
    proof {
        assert(b@.skip(i as int) =~= Seq::<bool>::empty());
        assert(bits_value(b@.skip(i as int)) == 0 && bits_value(rest@) == 0);
        assert(x * 0 == 0);
        lemma_small_mod(0, n as nat);
    }
    while i > 0
        invariant
            i <= b@.len(),
            x == bits_value(a@),
            n == bits_value(modulus@),
            x < n,
            bits_value(rest@) == (x * bits_value(b@.skip(i as int))) % n,
            bits_value(rest@) < n,
        decreases i,
    {
        let ghost h = bits_value(b@.skip(i as int)) as int;
        let ghost next = bits_value(b@.skip(i - 1)) as int;
        i = i - 1;
        assert(b@.skip(i as int).skip(1) =~= b@.skip(i + 1));
        assert(next == bit(b@[i as int]) + 2 * h);
        let ghost r = bits_value(rest@) as int;
        let double = shifted(&rest, false, modulus);
        proof {
            lemma_mul_mod_noop(2, x * h, n);
            lemma_mul_mod_noop(2, r, n);
            lemma_mod_twice(x * h, n);
            assert(2 * (x * h) == x * (2 * h)) by (nonlinear_arith);
            assert(bits_value(double@) == (x * (2 * h)) % n);
        }
        if b[i] {
            let added = sum(&double, a);
            rest = reduced(added, modulus);
            proof {
                lemma_small_mod(x as nat, n as nat);
                lemma_add_mod_noop(x * (2 * h), x, n);
                assert(x * (2 * h) + x == x * (1 + 2 * h)) by (nonlinear_arith);
            }
        } else {
            rest = double;
        }
    }
    assert(b@.skip(0) =~= b@);
    rest
}

/// A power of a number, to the modulus.
fn power(base: &Vec<bool>, exponent: &Vec<bool>, modulus: &Vec<bool>) -> (rest: Vec<bool>)
    requires
        bits_value(base@) < bits_value(modulus@),
    ensures
        bits_value(rest@) == pow(bits_value(base@) as int, bits_value(exponent@)) % (bits_value(
            modulus@,
        ) as int),
        bits_value(rest@) < bits_value(modulus@),
{
    let ghost x = bits_value(base@) as int;
    let ghost n = bits_value(modulus@) as int;
    let mut i: usize = exponent.len();
    let nothing: Vec<bool> = Vec::new();
    let mut rest = shifted(&nothing, true, modulus);
    proof {
        assert(exponent@.skip(i as int) =~= Seq::<bool>::empty());
        lemma_pow0(x);
    }
    while i > 0
        invariant
            i <= exponent@.len(),
            x == bits_value(base@),
            n == bits_value(modulus@),
            x < n,
            bits_value(rest@) == pow(x, bits_value(exponent@.skip(i as int))) % n,
            bits_value(rest@) < n,
        decreases i,
    {
        let ghost h = bits_value(exponent@.skip(i as int));
        i = i - 1;
        assert(exponent@.skip(i as int).skip(1) =~= exponent@.skip(i + 1));
        let ghost p = pow(x, h);
        let square = product(&rest, &rest, modulus);
        proof {
            lemma_mul_mod_noop(p, p, n);
            lemma_pow_adds(x, h, h);
            assert(bits_value(square@) == pow(x, (2 * h) as nat) % n);
        }
        if exponent[i] {
            let ghost q = pow(x, (2 * h) as nat);
            rest = product(&square, base, modulus);
            proof {
                lemma_small_mod(x as nat, n as nat);
                lemma_mul_mod_noop(q, x, n);
                lemma_pow1(x);
                lemma_pow_adds(x, (2 * h) as nat, 1);
                assert(bits_value(exponent@.skip(i as int)) == 2 * h + 1);
            }
        } else {
            rest = square;
        }
    }
    assert(exponent@.skip(0) =~= exponent@);
    rest
}

/// A number to the modulus.
fn residue(bits: &Vec<bool>, modulus: &Vec<bool>) -> (rest: Vec<bool>)
    requires
        bits_value(modulus@) > 0,
    ensures
        bits_value(rest@) == bits_value(bits@) % bits_value(modulus@),
        bits_value(rest@) < bits_value(modulus@),
{
    let ghost n = bits_value(modulus@) as int;
    let mut rest: Vec<bool> = Vec::new();
    let mut i: usize = bits.len();
    proof {
        assert(bits@.skip(i as int) =~= Seq::<bool>::empty());
        assert(bits_value(bits@.skip(i as int)) == 0 && bits_value(rest@) == 0);
        lemma_small_mod(0, n as nat);
    }
    while i > 0
        invariant
            i <= bits@.len(),
            n == bits_value(modulus@),
            n > 0,
            bits_value(rest@) == bits_value(bits@.skip(i as int)) as int % n,
            bits_value(rest@) < n,
        decreases i,
    {
        let ghost h = bits_value(bits@.skip(i as int)) as int;
        let ghost r = bits_value(rest@) as int;
        i = i - 1;
        assert(bits@.skip(i as int).skip(1) =~= bits@.skip(i + 1));
        let ghost b = bit(bits@[i as int]) as int;
        rest = shifted(&rest, bits[i], modulus);
        proof {
            lemma_mul_mod_noop(2, h, n);
            lemma_mul_mod_noop(2, r, n);
            lemma_mod_twice(h, n);
            lemma_add_mod_noop(2 * r, b, n);
            lemma_add_mod_noop(2 * h, b, n);
        }
    }
    assert(bits@.skip(0) =~= bits@);
    rest
}

// ---------------------------------------------------------------- numbers as texts

/// The value of a hexadecimal digit.
pub open spec fn hex_digit(c: char) -> Option<nat> {
    if '0' <= c <= '9' {
        Some((c as u32 - '0' as u32) as nat)
    } else if 'a' <= c <= 'f' {
        Some((c as u32 - 'a' as u32 + 10) as nat)
    } else if 'A' <= c <= 'F' {
        Some((c as u32 - 'A' as u32 + 10) as nat)
    } else {
        None
    }
}

/// The number that hexadecimal digits stand for.
pub open spec fn hex_digits_value(text: Seq<char>) -> Option<nat>
    decreases text.len(),
{
    if text.len() == 0 {
        Some(0)
    } else {
        match (hex_digits_value(text.drop_last()), hex_digit(text.last())) {
            (Some(head), Some(digit)) => Some(16 * head + digit),
            _ => None,
        }
    }
}

/// The number that a hexadecimal text stands for.
pub open spec fn hex_value(text: Seq<char>) -> Option<nat> {
    if text.len() == 0 {
        None
    } else {
        hex_digits_value(text)
    }
}

/// The number that bytes stand for, the highest first.
pub open spec fn bytes_value(bytes: Seq<u8>) -> nat
    decreases bytes.len(),
{
    if bytes.len() == 0 {
        0
    } else {
        256 * bytes_value(bytes.drop_last()) + bytes.last() as nat
    }
}

/// A hexadecimal digit in lower case.
pub open spec fn digit_text(d: nat) -> char {
    if d < 10 {
        (48 + d) as char
    } else {
        (87 + d) as char
    }
}

/// A byte in two hexadecimal digits.
pub open spec fn byte_text(b: nat) -> Seq<char> {
    seq![digit_text(b / 16), digit_text(b % 16)]
}

/// A number as hexadecimal bytes, the highest first.
pub open spec fn hex_text(n: nat) -> Seq<char>
    decreases n,
{
    if n < 256 {
        byte_text(n)
    } else {
        hex_text(n / 256) + byte_text(n % 256)
    }
}

/// Sixteen times a number and a digit.
fn with_digit(bits: &Vec<bool>, digit: u8) -> (all: Vec<bool>)
    requires
        digit < 16,
    ensures
        bits_value(all@) == 16 * bits_value(bits@) + digit,
{
    let mut all: Vec<bool> = Vec::new();
    all.push(digit % 2 == 1);
    all.push(digit / 2 % 2 == 1);
    all.push(digit / 4 % 2 == 1);
    all.push(digit / 8 % 2 == 1);
    let ghost low = all@;
    for i in 0..bits.len()
        invariant
            low.len() == 4,
            all@ == low + bits@.take(i as int),
    {
        all.push(bits[i]);
        assert(all@ =~= low + bits@.take(i + 1));
    }
    proof {
        assert(bits@.take(bits@.len() as int) =~= bits@);
        let a = all@;
        assert(a.skip(1).skip(1).skip(1).skip(1) =~= bits@);
        let b = a.skip(1);
        let c = b.skip(1);
        let d = c.skip(1);
        assert(bits_value(a) == bit(a[0]) + 2 * bits_value(b));
        assert(bits_value(b) == bit(a[1]) + 2 * bits_value(c));
        assert(bits_value(c) == bit(a[2]) + 2 * bits_value(d));
        assert(bits_value(d) == bit(a[3]) + 2 * bits_value(bits@));
        assert(digit == digit % 2 + 2 * (digit / 2 % 2) + 4 * (digit / 4 % 2) + 8 * (digit / 8
            % 2)) by (bit_vector)
            requires
                digit < 16,
        ;
    }
    all
}

fn digit_of(c: char) -> (digit: Option<u8>)
    ensures
        match hex_digit(c) {
            Some(d) => digit == Some(d as u8) && d < 16,
            None => digit is None,
        },
{
    if '0' <= c && c <= '9' {
        Some((c as u32 - '0' as u32) as u8)
    } else if 'a' <= c && c <= 'f' {
        Some((c as u32 - 'a' as u32 + 10) as u8)
    } else if 'A' <= c && c <= 'F' {
        Some((c as u32 - 'A' as u32 + 10) as u8)
    } else {
        None
    }
}

proof fn a_bad_digit_spoils_all(text: Seq<char>, k: int)
    requires
        0 <= k <= text.len(),
        hex_digits_value(text.take(k)) is None,
    ensures
        hex_digits_value(text) is None,
    decreases text.len(),
{
    if k < text.len() {
        assert(text.drop_last().take(k) =~= text.take(k));
        a_bad_digit_spoils_all(text.drop_last(), k);
    } else {
        assert(text.take(k) =~= text);
    }
}

fn bits_of_hex(text: &str) -> (bits: Option<Vec<bool>>)
    ensures
        match bits {
            Some(bits) => hex_value(text@) == Some(bits_value(bits@)),
            None => hex_value(text@) is None,
        },
{
    let chars = to_chars(text);
    if chars.len() == 0 {
        return None;
    }
    let mut bits: Vec<bool> = Vec::new();
    for i in 0..chars.len()
        invariant
            chars@ == text@,
            chars@.len() > 0,
            hex_digits_value(chars@.take(i as int)) == Some(bits_value(bits@)),
    {
        assert(chars@.take(i + 1).drop_last() =~= chars@.take(i as int));
        match digit_of(chars[i]) {
            Some(digit) => {
                bits = with_digit(&bits, digit);
            },
            None => {
                proof {
                    a_bad_digit_spoils_all(chars@, i + 1);
                }
                return None;
            },
        }
    }
    assert(chars@.take(chars@.len() as int) =~= chars@);
    Some(bits)
}

fn bits_of_bytes(bytes: &[u8]) -> (bits: Vec<bool>)
    ensures
        bits_value(bits@) == bytes_value(bytes@),
{
    let mut bits: Vec<bool> = Vec::new();
    for i in 0..bytes.len()
        invariant
            bits_value(bits@) == bytes_value(bytes@.take(i as int)),
    {
        assert(bytes@.take(i + 1).drop_last() =~= bytes@.take(i as int));
        let byte: u8 = bytes[i];
        let high = with_digit(&bits, byte / 16);
        bits = with_digit(&high, byte % 16);
    }
    assert(bytes@.take(bytes@.len() as int) =~= bytes@);
    bits
}

proof fn value_in_parts(bits: Seq<bool>, k: int)
    requires
        0 <= k <= bits.len(),
    ensures
        bits_value(bits) == bits_value(bits.take(k)) + pow2(k as nat) * bits_value(bits.skip(k)),
    decreases k,
{
    lemma2_to64();
    if k == 0 {
        assert(bits.take(0) =~= Seq::<bool>::empty());
        assert(bits.skip(0) =~= bits);
        bit_times(true, bits_value(bits));
    } else {
        value_in_parts(bits, k - 1);
        let rest = bits.skip(k - 1);
        assert(rest.skip(1) =~= bits.skip(k));
        value_of_push(bits.take(k - 1), bits[k - 1]);
        assert(bits.take(k - 1).push(bits[k - 1]) =~= bits.take(k));
        lemma_pow2_unfold(k as nat);
        let p = pow2((k - 1) as nat) as int;
        let b = bit(bits[k - 1]) as int;
        let h = bits_value(bits.skip(k)) as int;
        assert(bits_value(rest) == b + 2 * h);
        assert(p * (b + 2 * h) == b * p + (2 * p) * h) by (nonlinear_arith);
    }
}

fn byte_at(bits: &Vec<bool>, from: usize) -> (byte: u8)
    requires
        from <= bits@.len(),
    ensures
        byte == bits_value(lowest(bits@.skip(from as int), 8)),
{
    let mut byte: u8 = 0;
    let mut unit: u8 = 1;
    let ghost rest = bits@.skip(from as int);
    proof {
        lemma2_to64();
        assert(lowest(rest, 0) =~= Seq::<bool>::empty());
    }
    for i in 0..8usize
        invariant
            from <= bits@.len(),
            rest == bits@.skip(from as int),
            byte == bits_value(lowest(rest, i as nat)),
            byte < pow2(i as nat),
            i < 8 ==> unit == pow2(i as nat),
    {
        let b = i < bits.len() - from && bits[from + i];
        proof {
            lemma2_to64();
            lowest_step(rest, i as nat);
            assert(bit_at(rest, i as int) == b);
            bit_times(b, pow2(i as nat));
            lemma_pow2_unfold((i + 1) as nat);
        }
        if b {
            byte = byte + unit;
        }
        if i < 7 {
            unit = unit * 2;
        }
    }
    byte
}

fn append_byte(text: &mut String, byte: u8)
    ensures
        final(text)@ == old(text)@ + byte_text(byte as nat),
{
    let ghost before = text@;
    text.push(hex_char(byte / 16));
    text.push(hex_char(byte % 16));
    assert(text@ =~= before + byte_text(byte as nat));
}

fn hex_char(digit: u8) -> (c: char)
    requires
        digit < 16,
    ensures
        c == digit_text(digit as nat),
{
    if digit < 10 {
        (48 + digit) as char
    } else {
        (87 + digit) as char
    }
}

/// The bits from a place on as hexadecimal bytes.
fn write_bits(bits: &Vec<bool>, from: usize) -> (text: String)
    requires
        from <= bits@.len(),
        bits@.len() > 0 ==> bits@.last(),
    ensures
        text@ == hex_text(bits_value(bits@.skip(from as int))),
    decreases bits@.len() - from,
{
    let byte: u8 = byte_at(bits, from);
    let ghost rest = bits@.skip(from as int);
    proof {
        lemma2_to64();
    }
    if bits.len() - from <= 8 {
        proof {
            lowest_is_all(rest, 8);
        }
        let mut text = String::new();
        append_byte(&mut text, byte);
        assert(text@ =~= byte_text(byte as nat));
        return text;
    }
    let mut text = write_bits(bits, from + 8);
    append_byte(&mut text, byte);
    proof {
        let upper = rest.skip(8);
        assert(upper =~= bits@.skip(from + 8));
        value_in_parts(rest, 8);
        assert(rest.take(8) =~= lowest(rest, 8));
        let top = upper.drop_last();
        assert(upper =~= top.push(true));
        value_of_push(top, true);
        bit_times(true, pow2(top.len()));
        lemma_pow2_pos(top.len());
        let n = bits_value(rest) as int;
        let q = bits_value(upper) as int;
        let unit = pow2(8) as int;
        assert(n == byte + unit * q);
        assert(unit * q == q * 256) by (nonlinear_arith)
            requires
                unit == 256,
        ;
        lemma_fundamental_div_mod_converse(n, 256, q, byte as int);
    }
    text
}

// ---------------------------------------------------------------- the encryption

/// A password as a number, to the power of the exponent, to the modulus; as hexadecimal bytes.
/// The key must be hexadecimal, and its modulus not zero.
pub open spec fn encrypted(password: Seq<char>, modulus: Seq<char>, exponent: Seq<char>) -> Option<
    Seq<char>,
> {
    match (hex_value(modulus), hex_value(exponent)) {
        (Some(n), Some(e)) => if n == 0 {
            None
        } else {
            Some(
                hex_text(
                    (pow(bytes_value(encode_utf8(password)) as int, e) % (n as int)) as nat,
                ),
            )
        },
        _ => None,
    }
}

/// Encrypts a password with a public key.
pub fn rsa_no_padding(password: &str, modulus: &str, exponent: &str) -> (text: Option<String>)
    ensures
        text.deep_view() == encrypted(password@, modulus@, exponent@),
{
    let n = match bits_of_hex(modulus) {
        Some(n) => trimmed(n),
        None => {
            return None;
        },
    };
    let e = match bits_of_hex(exponent) {
        Some(e) => e,
        None => {
            return None;
        },
    };
    if n.len() == 0 {
        return None;
    }
    proof {
        let top = n@.drop_last();
        assert(n@ =~= top.push(true));
        value_of_push(top, true);
        bit_times(true, pow2(top.len()));
        lemma_pow2_pos(top.len());
    }
    let message = residue(&bits_of_bytes(password.as_bytes()), &n);
    let code = trimmed(power(&message, &e, &n));
    proof {
        lemma_pow_mod_noop(
            bytes_value(encode_utf8(password@)) as int,
            bits_value(e@),
            bits_value(n@) as int,
        );
        assert(code@.skip(0) =~= code@);
    }
    Some(write_bits(&code, 0))
}

// ---------------------------------------------------------------- what the numerals mean

/// A digit means the same as a small and as a capital letter, and the digits count up one by one.
pub proof fn digits_count_up(d: nat)
    requires
        d < 16,
    ensures
        hex_digit(digit_text(d)) == Some(d),
        hex_digit('0') == Some(0nat),
        hex_digit('9') == Some(9nat),
        hex_digit('a') == Some(10nat),
        hex_digit('A') == Some(10nat),
        hex_digit('f') == Some(15nat),
        hex_digit('F') == Some(15nat),
        d < 10 ==> '0' <= digit_text(d) <= '9',
        d >= 10 ==> 'a' <= digit_text(d) <= 'f',
{
}

/// A numeral is read digit by digit: one digit more is sixteen times the number and the digit.
/// What has no digits, or another character among them, is no number.
pub proof fn a_hexadecimal_is_read_digit_by_digit(text: Seq<char>, c: char)
    ensures
        hex_value(Seq::empty()) is None,
        hex_value(seq![c]) == hex_digit(c),
        text.len() > 0 ==> hex_value(text.push(c)) == match (hex_value(text), hex_digit(c)) {
            (Some(head), Some(digit)) => Some((16 * head + digit) as nat),
            _ => None,
        },
        hex_digit(c) is Some <==> '0' <= c <= '9' || 'a' <= c <= 'f' || 'A' <= c <= 'F',
{
    assert(text.push(c).drop_last() =~= text);
    assert(seq![c].drop_last() =~= Seq::<char>::empty());
    assert(hex_digits_value(Seq::<char>::empty()) == Some(0nat));
}

/// Bytes are read as one number: one byte more is 256 times the number and the byte.
pub proof fn bytes_are_read_as_one_number(bytes: Seq<u8>, b: u8)
    ensures
        bytes_value(Seq::empty()) == 0,
        bytes_value(bytes.push(b)) == 256 * bytes_value(bytes) + b,
{
    assert(bytes.push(b).drop_last() =~= bytes);
}

/// What is written of a number is read back as the number. It is written in whole bytes, without
/// one that is zero in front of others.
pub proof fn a_written_number_is_read_back(n: nat)
    ensures
        hex_value(hex_text(n)) == Some(n),
        hex_text(n).len() >= 2,
        hex_text(n).len() % 2 == 0,
        hex_text(n).len() > 2 ==> !(hex_text(n)[0] == '0' && hex_text(n)[1] == '0'),
        hex_text(n)[0] == '0' && hex_text(n)[1] == '0' ==> n == 0,
    decreases n,
{
    let low: nat = n % 256;
    let one: nat = low / 16;
    let two: nat = low % 16;
    digits_count_up(one);
    digits_count_up(two);
    let head = if n < 256 {
        Seq::empty()
    } else {
        hex_text(n / 256)
    };
    if n >= 256 {
        a_written_number_is_read_back(n / 256);
    }
    let text = hex_text(n);
    assert(text =~= head + byte_text(low));
    assert(text.drop_last() =~= head.push(digit_text(one)));
    assert(text.drop_last().drop_last() =~= head);
    assert(text.last() == digit_text(two));
    assert(hex_digits_value(head) == Some(n / 256)) by {
        if n < 256 {
            assert(hex_digits_value(Seq::<char>::empty()) == Some(0nat));
        }
    }
    assert(hex_digits_value(text.drop_last()) == Some((16 * (n / 256) + one) as nat));
    assert(16 * (16 * (n / 256) + one) + two == n);
    if n < 256 && text[0] == '0' && text[1] == '0' {
        assert(hex_digit(text[0]) == Some(one));
        assert(hex_digit(text[1]) == Some(two));
    }
    if n >= 256 {
        assert(text[0] == head[0] && text[1] == head[1]);
    }
}

/// A password is encrypted as a number below the modulus, which leaves the same rest as the power
/// of the number that its bytes are. Where one of the two numbers is none, or the modulus is
/// zero, nothing is encrypted.
pub proof fn an_encrypted_password_is_a_power(
    password: Seq<char>,
    modulus: Seq<char>,
    exponent: Seq<char>,
)
    ensures
        match encrypted(password, modulus, exponent) {
            Some(text) => {
                &&& hex_value(modulus) matches Some(n) && n > 0
                &&& hex_value(exponent) is Some
                &&& hex_value(text) matches Some(c) && c < hex_value(modulus)->0 && c == pow(
                    bytes_value(encode_utf8(password)) as int,
                    hex_value(exponent)->0,
                ) % (hex_value(modulus)->0 as int)
            },
            None => hex_value(modulus) is None || hex_value(exponent) is None || hex_value(modulus)
                == Some(0nat),
        },
{
    if let (Some(n), Some(e)) = (hex_value(modulus), hex_value(exponent)) {
        if n > 0 {
            let c = pow(bytes_value(encode_utf8(password)) as int, e) % (n as int);
            a_written_number_is_read_back(c as nat);
        }
    }
}

} // verus!
