//! Text building blocks: hexadecimal and decimal digits, and appending to strings.
use vstd::prelude::*;

verus! {

/// Appends one character to a string.
///
/// Trusted: wraps `String::push` from std, whose documentation says that it
/// appends the given char to the end of the string.
#[verifier::external_body]
pub(crate) fn push_char(s: &mut String, c: char)
    ensures
        final(s)@ == old(s)@.push(c),
{
    s.push(c);
}

/// The upper-case hexadecimal digit for a value below sixteen.
pub open spec fn hex_digit(n: int) -> char
    recommends
        0 <= n < 16,
{
    if n < 10 {
        (48 + n) as char
    } else {
        (55 + n) as char
    }
}

/// The value of a hexadecimal digit, in either case; `None` for any other character.
pub open spec fn hex_char_value(c: char) -> Option<nat> {
    let x = c as int;
    if 48 <= x <= 57 {
        Some((x - 48) as nat)
    } else if 65 <= x <= 70 {
        Some((x - 55) as nat)
    } else if 97 <= x <= 102 {
        Some((x - 87) as nat)
    } else {
        None
    }
}

/// The two upper-case hexadecimal digits of a byte.
pub open spec fn hex_pair(b: u8) -> Seq<char> {
    seq![hex_digit((b / 16) as int), hex_digit((b % 16) as int)]
}

/// The decimal digit for a value below ten.
pub open spec fn dec_digit(n: int) -> char
    recommends
        0 <= n < 10,
{
    (48 + n) as char
}

/// The decimal digits of a natural number, without leading zeros ("0" for zero).
pub open spec fn decimal_digits(n: nat) -> Seq<char>
    decreases n,
{
    if n < 10 {
        seq![dec_digit(n as int)]
    } else {
        decimal_digits(n / 10).push(dec_digit((n % 10) as int))
    }
}

/// The `k` lowest decimal digits of `n`, most significant first, padded with zeros.
pub open spec fn padded_digits(n: nat, k: nat) -> Seq<char>
    decreases k,
{
    if k == 0 {
        seq![]
    } else {
        padded_digits(n / 10, (k - 1) as nat).push(dec_digit((n % 10) as int))
    }
}

/// The digits after the decimal point of `n / 10^k`, with trailing zeros left out.
pub open spec fn fraction_digits(n: nat, k: nat) -> Seq<char>
    decreases k,
{
    if k > 0 && n % 10 == 0 {
        fraction_digits(n / 10, (k - 1) as nat)
    } else {
        padded_digits(n, k)
    }
}

/// Ten to the power `k`.
pub open spec fn pow10(k: nat) -> nat
    decreases k,
{
    if k == 0 {
        1
    } else {
        10 * pow10((k - 1) as nat)
    }
}

/// The plain decimal notation of the exact number `num / 10^scale`: a minus sign for
/// negative numbers, the integer part, and, where the number is not whole, a point and
/// the fraction's digits without trailing zeros. This is the text that Rust's `Display`
/// gives for the `f64` nearest to that number when `num` has at most fifteen digits.
pub open spec fn decimal_text(num: int, scale: nat) -> Seq<char> {
    let m: nat = if num < 0 {
        (-num) as nat
    } else {
        num as nat
    };
    let p = pow10(scale);
    let sign: Seq<char> = if num < 0 {
        seq!['-']
    } else {
        seq![]
    };
    if m % p == 0 {
        sign + decimal_digits(m / p)
    } else {
        sign + decimal_digits(m / p) + seq!['.'] + fraction_digits(m % p, scale)
    }
}

/// Executable counterpart of `hex_digit`.
pub(crate) fn hex_digit_char(n: u8) -> (c: char)
    requires
        n < 16,
    ensures
        c == hex_digit(n as int),
{
    if n < 10 {
        (48 + n) as char
    } else {
        (55 + n) as char
    }
}

/// Executable counterpart of `hex_char_value`.
pub(crate) fn hex_char_to_value(c: char) -> (r: Option<u8>)
    ensures
        r matches Some(v) ==> hex_char_value(c) == Some(v as nat) && v < 16,
        r is None ==> hex_char_value(c) is None,
{
    let x = c as u32;
    if 48 <= x && x <= 57 {
        Some((x - 48) as u8)
    } else if 65 <= x && x <= 70 {
        Some((x - 55) as u8)
    } else if 97 <= x && x <= 102 {
        Some((x - 87) as u8)
    } else {
        None
    }
}

/// Appends the two upper-case hexadecimal digits of a byte.
pub(crate) fn push_hex_pair(s: &mut String, b: u8)
    ensures
        final(s)@ == old(s)@ + hex_pair(b),
{
    push_char(s, hex_digit_char(b / 16));
    push_char(s, hex_digit_char(b % 16));
    assert(final(s)@ =~= old(s)@ + hex_pair(b));
}

/// Appends the decimal digits of `n`.
pub(crate) fn push_decimal(s: &mut String, n: u64)
    ensures
        final(s)@ == old(s)@ + decimal_digits(n as nat),
    decreases n,
{
    if n >= 10 {
        push_decimal(s, n / 10);
    }
    push_char(s, ((48 + n % 10) as u8) as char);
    assert(final(s)@ =~= old(s)@ + decimal_digits(n as nat));
}

/// Appends the `k` lowest decimal digits of `n`, padded with zeros.
pub(crate) fn push_padded(s: &mut String, n: u64, k: u32)
    ensures
        final(s)@ == old(s)@ + padded_digits(n as nat, k as nat),
    decreases k,
{
    if k > 0 {
        push_padded(s, n / 10, k - 1);
        push_char(s, ((48 + n % 10) as u8) as char);
    }
    assert(final(s)@ =~= old(s)@ + padded_digits(n as nat, k as nat));
}

/// Ten to the power `k`, for `k` up to eighteen.
pub(crate) fn pow10_u64(k: u32) -> (r: u64)
    requires
        k <= 18,
    ensures
        r == pow10(k as nat),
{
    let mut r: u64 = 1;
    let mut i: u32 = 0;
    while i < k
        invariant
            i <= k <= 18,
            r == pow10(i as nat),
            r <= 1_000_000_000_000_000_000,
        decreases k - i,
    {
        assert(pow10((i + 1) as nat) == 10 * pow10(i as nat));
        proof {
            lemma_pow10_monotone((i + 1) as nat, 18);
            lemma_pow10_18();
        }
        r = r * 10;
        i = i + 1;
    }
    r
}

/// `pow10` grows with its exponent and is never zero.
proof fn lemma_pow10_monotone(i: nat, j: nat)
    requires
        i <= j,
    ensures
        0 < pow10(i) <= pow10(j),
    decreases j,
{
    lemma_pow10_positive(j);
    if i < j {
        lemma_pow10_monotone(i, (j - 1) as nat);
    }
}

pub proof fn lemma_pow10_positive(k: nat)
    ensures
        pow10(k) > 0,
    decreases k,
{
    if k > 0 {
        lemma_pow10_positive((k - 1) as nat);
    }
}

proof fn lemma_pow10_18()
    ensures
        pow10(18) == 1_000_000_000_000_000_000,
{
    reveal_with_fuel(pow10, 19);
}

/// Appends the fraction digits of `n / 10^k` without trailing zeros.
pub(crate) fn push_fraction(s: &mut String, n: u64, k: u32)
    ensures
        final(s)@ == old(s)@ + fraction_digits(n as nat, k as nat),
{
    let mut m = n;
    let mut j = k;
    while j > 0 && m % 10 == 0
        invariant
            fraction_digits(m as nat, j as nat) == fraction_digits(n as nat, k as nat),
        decreases j,
    {
        m = m / 10;
        j = j - 1;
    }
    push_padded(s, m, j);
}

/// The plain decimal notation of `num / 10^scale` (see `decimal_text`).
pub fn format_decimal(num: i64, scale: u32) -> (r: String)
    requires
        scale <= 18,
    ensures
        r@ == decimal_text(num as int, scale as nat),
{
    let mut s = String::new();
    let m: u64 = if num < 0 {
        ((-(num + 1)) as u64) + 1
    } else {
        num as u64
    };
    if num < 0 {
        push_char(&mut s, '-');
    }
    let p = pow10_u64(scale);
    proof {
        lemma_pow10_monotone(0, scale as nat);
    }
    push_decimal(&mut s, m / p);
    let frac = m % p;
    if frac != 0 {
        push_char(&mut s, '.');
        push_fraction(&mut s, frac, scale);
    }
    proof {
        let sign: Seq<char> = if num < 0 {
            seq!['-']
        } else {
            seq![]
        };
        if frac == 0 {
            assert(s@ =~= sign + decimal_digits((m / p) as nat));
        } else {
            assert(s@ =~= sign + decimal_digits((m / p) as nat) + seq!['.'] + fraction_digits(
                (m % p) as nat,
                scale as nat,
            ));
        }
    }
    s
}

/// Whether two texts are the same characters.
pub(crate) fn text_eq(a: &str, b: &str) -> (r: bool)
    ensures
        r == (a@ == b@),
{
    let n = a.unicode_len();
    if n != b.unicode_len() {
        return false;
    }
    let mut i: usize = 0;
    while i < n
        invariant
            i <= n,
            n == a@.len(),
            n == b@.len(),
            forall|j: int| 0 <= j < i ==> a@[j] == b@[j],
        decreases n - i,
    {
        if a.get_char(i) != b.get_char(i) {
            return false;
        }
        i = i + 1;
    }
    assert(a@ =~= b@);
    true
}

} // verus!
