//! Small text-building helpers with exact specifications: decimal and
//! hexadecimal rendering of integers, and character appends.
use vstd::prelude::*;

verus! {

/// The ASCII digit for a value below ten.
pub open spec fn digit_char(d: nat) -> char {
    (('0' as u32) + d) as char
}

/// The lowercase hexadecimal digit for a value below sixteen.
pub open spec fn hex_digit_char(d: nat) -> char {
    if d < 10 {
        (('0' as u32) + d) as char
    } else {
        (('a' as u32) + (d - 10)) as char
    }
}

/// Decimal digits of a natural number, most significant first, without
/// leading zeros (zero itself is "0").
pub open spec fn decimal_digits(n: nat) -> Seq<char>
    decreases n,
{
    if n < 10 {
        seq![digit_char(n)]
    } else {
        decimal_digits(n / 10).push(digit_char(n % 10))
    }
}

/// Decimal rendering of an integer, with a leading '-' for negatives.
pub open spec fn int_text(i: int) -> Seq<char> {
    if i < 0 {
        seq!['-'] + decimal_digits((-i) as nat)
    } else {
        decimal_digits(i as nat)
    }
}

/// Two lowercase hexadecimal digits of a byte (as `{:02x}` prints it).
pub open spec fn hex_byte_text(b: u8) -> Seq<char> {
    seq![hex_digit_char((b / 16) as nat), hex_digit_char((b % 16) as nat)]
}

/// Lowercase hexadecimal digits of a natural number, most significant
/// first, without leading zeros (as `{:x}` prints it).
pub open spec fn hex_digits(n: nat) -> Seq<char>
    decreases n,
{
    if n < 16 {
        seq![hex_digit_char(n)]
    } else {
        hex_digits(n / 16).push(hex_digit_char(n % 16))
    }
}

pub open spec fn zero_pad(s: Seq<char>, width: nat) -> Seq<char> {
    if s.len() >= width {
        s
    } else {
        Seq::new((width - s.len()) as nat, |i: int| '0') + s
    }
}

/// Collects the characters of a string (std `str::chars`, collected into a
/// `Vec`). A `Vec<char>` never holds more than `isize::MAX` bytes, so its
/// length is far below `isize::MAX`.
#[verifier::external_body]
pub(crate) fn chars_of(s: &str) -> (v: Vec<char>)
    ensures
        v@ == s@,
        v@.len() <= isize::MAX,
{
    s.chars().collect()
}

/// A byte that prints as itself: ASCII graphic characters and space.
pub open spec fn printable_byte(b: u8) -> bool {
    0x20 <= b <= 0x7e
}

pub fn is_printable_byte(b: u8) -> (r: bool)
    ensures
        r == printable_byte(b),
{
    0x20 <= b && b <= 0x7e
}

/// Appends one character (std `String::push`).
#[verifier::external_body]
pub(crate) fn push_char(s: &mut String, c: char)
    ensures
        final(s)@ == old(s)@.push(c),
{
    s.push(c);
}

pub fn digit_to_char(d: u32) -> (c: char)
    requires
        d < 10,
    ensures
        c == digit_char(d as nat),
{
    proof {
        assert(48 + d < 0xD800);
    }
    let v: u32 = 48 + d;
    char_from_scalar(v)
}

pub fn hex_digit_to_char(d: u32) -> (c: char)
    requires
        d < 16,
    ensures
        c == hex_digit_char(d as nat),
{
    if d < 10 {
        char_from_scalar(48 + d)
    } else {
        char_from_scalar(97 + (d - 10))
    }
}

/// The character with a given Unicode scalar value below the surrogates
/// (std `char::from_u32`, which succeeds on such values).
#[verifier::external_body]
pub(crate) fn char_from_scalar(v: u32) -> (c: char)
    requires
        v < 0xD800,
    ensures
        c == v as char,
        c as u32 == v,
{
    char::from_u32(v).unwrap()
}

proof fn lemma_decimal_digits_len(n: nat)
    ensures
        decimal_digits(n).len() >= 1,
    decreases n,
{
    if n >= 10 {
        lemma_decimal_digits_len(n / 10);
    }
}

/// Appends the decimal digits of `n` to `s`.
pub fn push_decimal(s: &mut String, n: u64)
    ensures
        final(s)@ == old(s)@ + decimal_digits(n as nat),
{
    // collect digits least significant first
    let mut rev: Vec<char> = Vec::new();
    let mut m: u64 = n;
    let ghost mut done: Seq<char> = Seq::empty();
    while m >= 10
        invariant
            decimal_digits(n as nat) == decimal_digits(m as nat) + rev@.reverse(),
        decreases m,
    {
        let d = (m % 10) as u32;
        let c = digit_to_char(d);
        proof {
            assert(decimal_digits(m as nat) == decimal_digits((m / 10) as nat).push(c));
            assert(rev@.push(c).reverse() =~= seq![c] + rev@.reverse());
            assert(decimal_digits((m / 10) as nat).push(c) + rev@.reverse()
                =~= decimal_digits((m / 10) as nat) + (seq![c] + rev@.reverse()));
        }
        rev.push(c);
        m = m / 10;
    }
    let c0 = digit_to_char(m as u32);
    push_char(s, c0);
    let mut i = rev.len();
    proof {
        assert(decimal_digits(m as nat) =~= seq![c0]);
    }
    while i > 0
        invariant
            i <= rev.len(),
            s@ == old(s)@ + seq![c0] + rev@.subrange(i as int, rev.len() as int).reverse(),
            decimal_digits(n as nat) == seq![c0] + rev@.reverse(),
        decreases i,
    {
        i = i - 1;
        let c = rev[i];
        proof {
            assert(rev@.subrange(i as int, rev.len() as int).reverse() =~=
                rev@.subrange(i + 1, rev.len() as int).reverse().push(c));
        }
        push_char(s, c);
    }
    proof {
        assert(rev@.subrange(0, rev.len() as int) =~= rev@);
    }
}

/// Appends the decimal rendering of a signed integer to `s`.
pub fn push_int(s: &mut String, i: i64)
    ensures
        final(s)@ == old(s)@ + int_text(i as int),
{
    if i < 0 {
        push_char(s, '-');
        let a: u64 = if i == i64::MIN {
            9223372036854775808u64
        } else {
            (-i) as u64
        };
        push_decimal(s, a);
        assert(final(s)@ =~= old(s)@ + int_text(i as int));
    } else {
        push_decimal(s, i as u64);
    }
}

/// Appends the lowercase hexadecimal digits of `n` (as `{:x}` prints it).
pub fn push_hex(s: &mut String, n: u64) -> (count: usize)
    ensures
        final(s)@ == old(s)@ + hex_digits(n as nat),
        count == hex_digits(n as nat).len(),
{
    let mut rev: Vec<char> = Vec::new();
    let mut m: u64 = n;
    proof {
        reveal_with_fuel(pow16, 17);
        assert(pow16(16) == 18446744073709551616nat);
    }
    while m >= 16
        invariant
            hex_digits(n as nat) == hex_digits(m as nat) + rev@.reverse(),
            rev@.len() <= 16,
            m < pow16((16 - rev@.len()) as nat),
        decreases m,
    {
        let c = hex_digit_to_char((m % 16) as u32);
        proof {
            assert(hex_digits(m as nat) == hex_digits((m / 16) as nat).push(c));
            assert(rev@.push(c).reverse() =~= seq![c] + rev@.reverse());
            assert(hex_digits((m / 16) as nat).push(c) + rev@.reverse()
                =~= hex_digits((m / 16) as nat) + (seq![c] + rev@.reverse()));
        }
        proof {
            let k = (16 - rev@.len()) as nat;
            if k == 0 {
                assert(pow16(0) == 1);
            } else {
                assert(pow16(k) == 16 * pow16((k - 1) as nat));
                let p = pow16((k - 1) as nat);
                assert(m / 16 < p) by (nonlinear_arith)
                    requires
                        m < 16 * p,
                ;
            }
        }
        rev.push(c);
        m = m / 16;
    }
    let c0 = hex_digit_to_char(m as u32);
    push_char(s, c0);
    let mut i = rev.len();
    proof {
        assert(hex_digits(m as nat) =~= seq![c0]);
    }
    while i > 0
        invariant
            i <= rev.len(),
            s@ == old(s)@ + seq![c0] + rev@.subrange(i as int, rev.len() as int).reverse(),
            hex_digits(n as nat) == seq![c0] + rev@.reverse(),
        decreases i,
    {
        i = i - 1;
        let c = rev[i];
        proof {
            assert(rev@.subrange(i as int, rev.len() as int).reverse() =~=
                rev@.subrange(i + 1, rev.len() as int).reverse().push(c));
        }
        push_char(s, c);
    }
    proof {
        assert(rev@.subrange(0, rev.len() as int) =~= rev@);
    }
    rev.len() + 1
}

/// Appends the lowercase hexadecimal digits of `n`, zero padded to eight
/// (as `{:08x}` prints it).
pub fn push_hex_padded8(s: &mut String, n: u64)
    ensures
        final(s)@ == old(s)@ + zero_pad(hex_digits(n as nat), 8),
{
    let mut digits = String::new();
    let len = push_hex(&mut digits, n);
    let mut k: usize = len;
    let ghost start = s@;
    while k < 8
        invariant
            len <= k <= 8 || (len > 8 && k == len),
            digits@ == hex_digits(n as nat),
            len == digits@.len(),
            s@ == start + Seq::new((k - len) as nat, |i: int| '0'),
        decreases 8 - k,
    {
        push_char(s, '0');
        proof {
            assert(s@ =~= start + Seq::new((k + 1 - len) as nat, |i: int| '0'));
        }
        k = k + 1;
    }
    s.append(digits.as_str());
    proof {
        if len >= 8 {
            assert(s@ =~= old(s)@ + hex_digits(n as nat));
        } else {
            assert(s@ =~= old(s)@ + zero_pad(hex_digits(n as nat), 8));
        }
    }
}

pub open spec fn pow16(k: nat) -> nat
    decreases k,
{
    if k == 0 {
        1
    } else {
        16 * pow16((k - 1) as nat)
    }
}

/// Appends two lowercase hex digits of a byte.
pub fn push_hex_byte(s: &mut String, b: u8)
    ensures
        final(s)@ == old(s)@ + hex_byte_text(b),
{
    let hi = hex_digit_to_char((b / 16) as u32);
    let lo = hex_digit_to_char((b % 16) as u32);
    push_char(s, hi);
    push_char(s, lo);
    assert(final(s)@ =~= old(s)@ + hex_byte_text(b));
}

} // verus!
