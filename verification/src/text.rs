//! Number formatting for status lines and stop messages.
//!
//! The spec functions here say what `{}` (decimal) and `{:0W X}` (upper-case,
//! zero-padded hexadecimal) render for an unsigned integer.
use vstd::prelude::*;

verus! {

/// The digit character for `d` in bases up to 16, upper case.
pub open spec fn digit_char(d: nat) -> char {
    if d < 10 {
        (('0' as nat) + d) as char
    } else {
        (('A' as nat) + (d - 10)) as char
    }
}

/// The digits of `n` in base `base`, most significant first, without
/// leading zeros (`0` renders as a single `'0'`).
pub open spec fn digits(n: nat, base: nat) -> Seq<char>
    recommends
        2 <= base <= 16,
    decreases n,
{
    if base < 2 || n < base {
        seq![digit_char(n)]
    } else {
        proof {
            vstd::arithmetic::div_mod::lemma_div_decreases(n as int, base as int);
        }
        digits(n / base, base).push(digit_char(n % base))
    }
}

/// What `format!("{}", n)` renders.
pub open spec fn decimal(n: nat) -> Seq<char> {
    digits(n, 10)
}

/// What `format!("{:0w$X}", n)` renders: the upper-case hexadecimal digits of
/// `n`, with `'0'`s in front up to `width` characters.
pub open spec fn hex_padded(n: nat, width: nat) -> Seq<char> {
    let h = digits(n, 16);
    if h.len() < width {
        Seq::new((width - h.len()) as nat, |i: int| '0') + h
    } else {
        h
    }
}

/// The number that a sequence of digit characters stands for in `base`.
pub open spec fn digits_value(s: Seq<char>, base: nat) -> int
    decreases s.len(),
{
    if s.len() == 0 {
        0
    } else {
        digits_value(s.drop_last(), base) * base + digit_value(s.last())
    }
}

/// The value of one digit character (`0-9`, `A-F`).
pub open spec fn digit_value(c: char) -> int {
    if '0' <= c && c <= '9' {
        c as int - '0' as int
    } else {
        c as int - 'A' as int + 10
    }
}

/// Appends one character: calls `String::push`, which appends `c` to the
/// end of the string (trusted: its contract is believed, not proved).
#[verifier::external_body]
pub(crate) fn push_char(s: &mut String, c: char)
    ensures
        final(s)@ == old(s)@.push(c),
{
    s.push(c);
}

fn digit(d: u64) -> (c: char)
    requires
        d < 16,
    ensures
        c == digit_char(d as nat),
{
    if d < 10 {
        let v: u8 = 48u8 + (d as u8);
        assert(v as nat == ('0' as nat) + d);
        v as char
    } else {
        let v: u8 = 55u8 + (d as u8);
        assert(v as nat == ('A' as nat) + (d - 10));
        v as char
    }
}

/// Appends the digits of `n` in base `base`.
pub fn push_digits(out: &mut String, n: u64, base: u64)
    requires
        2 <= base <= 16,
    ensures
        final(out)@ == old(out)@ + digits(n as nat, base as nat),
    decreases n,
{
    if n < base {
        push_char(out, digit(n));
    } else {
        proof {
            vstd::arithmetic::div_mod::lemma_div_decreases(n as int, base as int);
        }
        push_digits(out, n / base, base);
        push_char(out, digit(n % base));
        assert(final(out)@ =~= old(out)@ + digits(n as nat, base as nat));
    }
}

/// The number of digits of `n` in base `base`.
pub fn digit_count(n: u64, base: u64) -> (len: usize)
    requires
        2 <= base <= 16,
    ensures
        len as nat == digits(n as nat, base as nat).len(),
        len <= 64,
    decreases n,
{
    proof {
        vstd::arithmetic::power2::lemma2_to64();
        lemma_digits_len_log(n as nat, base as nat, 64);
    }
    if n < base {
        1
    } else {
        proof {
            vstd::arithmetic::div_mod::lemma_div_decreases(n as int, base as int);
        }
        digit_count(n / base, base) + 1
    }
}

/// `digits(n, base)` has at most `k` characters whenever `n < 2^k`.
proof fn lemma_digits_len_log(n: nat, base: nat, k: nat)
    requires
        2 <= base <= 16,
        1 <= k,
        n < vstd::arithmetic::power2::pow2(k),
    ensures
        digits(n, base).len() <= k,
    decreases n,
{
    vstd::arithmetic::power2::lemma_pow2_pos(k);
    if n >= base {
        let q = n / base;
        vstd::arithmetic::div_mod::lemma_div_decreases(n as int, base as int);
        assert(q < n) by (nonlinear_arith)
            requires q == n / base, n >= base, base >= 2;
        assert(2 * q <= n) by (nonlinear_arith)
            requires q == n / base, base >= 2;
        vstd::arithmetic::power2::lemma_pow2_unfold(k);
        if k == 1 {
            assert(false) by {
                vstd::arithmetic::power2::lemma2_to64();
            }
        } else {
            lemma_digits_len_log(q, base, (k - 1) as nat);
        }
    }
}

/// Appends `n` as `format!("{}", n)` renders it.
pub fn push_decimal(out: &mut String, n: u64)
    ensures
        final(out)@ == old(out)@ + decimal(n as nat),
{
    push_digits(out, n, 10);
}

/// Appends `n` as `format!("{:0width$X}", n)` renders it.
pub fn push_hex_padded(out: &mut String, n: u64, width: usize)
    ensures
        final(out)@ == old(out)@ + hex_padded(n as nat, width as nat),
{
    let len = digit_count(n, 16);
    let ghost start = out@;
    let mut k: usize = len;
    while k < width
        invariant
            len <= k,
            len as nat == digits(n as nat, 16).len(),
            k <= width || k == len,
            out@ == start + Seq::new((k - len) as nat, |i: int| '0'),
        decreases width - k,
    {
        push_char(out, '0');
        k = k + 1;
        assert(out@ =~= start + Seq::new((k - len) as nat, |i: int| '0'));
    }
    let ghost zeros = out@;
    push_digits(out, n, 16);
    proof {
        if len < width {
            assert(k == width);
            assert(out@ =~= start + hex_padded(n as nat, width as nat));
        } else {
            assert(out@ =~= start + hex_padded(n as nat, width as nat));
        }
    }
}

proof fn lemma_digit_roundtrip(d: nat)
    requires
        d < 16,
    ensures
        digit_value(digit_char(d)) == d,
{
    if d < 10 {
        assert(('0' as nat) + d < 0xD800);
    } else {
        assert(('A' as nat) + (d - 10) < 0xD800);
    }
}

/// Whether `c` is a digit of base `base`, written `0-9` or upper-case `A-F`.
pub open spec fn is_digit_of(c: char, base: nat) -> bool {
    &&& ('0' <= c && c <= '9') || ('A' <= c && c <= 'F')
    &&& digit_value(c) < base
}

/// Whether `s` renders `n` in base `base` padded to `width`: it is made of
/// the base's digits, reads back as `n`, has at least `width` digits and at
/// least one, and starts with `'0'` only where the width or the number zero
/// asks for it.
pub open spec fn renders(s: Seq<char>, n: nat, base: nat, width: nat) -> bool {
    &&& forall|i: int| 0 <= i < s.len() ==> is_digit_of(#[trigger] s[i], base)
    &&& digits_value(s, base) == n
    &&& s.len() >= width
    &&& s.len() >= 1
    &&& s.len() > width && s.len() > 1 ==> s[0] != '0'
}

/// Whether `t` is `prefix`, then a rendering of `n` in base `base` padded to
/// `width`, then `suffix`.
pub open spec fn shows_number(
    t: Seq<char>,
    prefix: Seq<char>,
    n: nat,
    base: nat,
    width: nat,
    suffix: Seq<char>,
) -> bool {
    &&& t.len() >= prefix.len() + suffix.len()
    &&& t.subrange(0, prefix.len() as int) == prefix
    &&& t.subrange(t.len() - suffix.len(), t.len() as int) == suffix
    &&& renders(t.subrange(prefix.len() as int, t.len() - suffix.len()), n, base, width)
}

/// `prefix + r + suffix` shows `n` whenever `r` renders it.
pub proof fn lemma_shows_number(
    prefix: Seq<char>,
    r: Seq<char>,
    suffix: Seq<char>,
    n: nat,
    base: nat,
    width: nat,
)
    requires
        renders(r, n, base, width),
    ensures
        shows_number(prefix + r + suffix, prefix, n, base, width, suffix),
{
    let t = prefix + r + suffix;
    assert(t.subrange(0, prefix.len() as int) =~= prefix);
    assert(t.subrange(t.len() - suffix.len(), t.len() as int) =~= suffix);
    assert(t.subrange(prefix.len() as int, t.len() - suffix.len()) =~= r);
}

proof fn lemma_digit_char_is_digit(d: nat, base: nat)
    requires
        d < base <= 16,
    ensures
        is_digit_of(digit_char(d), base),
        digit_char(d) == '0' <==> d == 0,
{
    lemma_digit_roundtrip(d);
    if d < 10 {
        assert(('0' as nat) + d < 0xD800);
    } else {
        assert(('A' as nat) + (d - 10) < 0xD800);
    }
}

proof fn lemma_digits_shape(n: nat, base: nat)
    requires
        2 <= base <= 16,
    ensures
        forall|i: int| 0 <= i < digits(n, base).len() ==> is_digit_of(#[trigger] digits(n, base)[i], base),
        digits(n, base).len() >= 1,
        n > 0 ==> digits(n, base)[0] != '0',
    decreases n,
{
    if n < base {
        lemma_digit_char_is_digit(n, base);
    } else {
        vstd::arithmetic::div_mod::lemma_div_decreases(n as int, base as int);
        lemma_digits_shape(n / base, base);
        lemma_digit_char_is_digit(n % base, base);
        let s = digits(n, base);
        assert(s == digits(n / base, base).push(digit_char(n % base)));
        assert(n / base > 0) by {
            vstd::arithmetic::div_mod::lemma_div_is_ordered(base as int, n as int, base as int);
            vstd::arithmetic::div_mod::lemma_div_basics(base as int);
        }
        assert forall|i: int| 0 <= i < s.len() implies is_digit_of(#[trigger] s[i], base) by {
            if i < s.len() - 1 {
                assert(s[i] == digits(n / base, base)[i]);
            }
        }
        assert(s[0] == digits(n / base, base)[0]);
    }
}

proof fn lemma_zeros_value(k: nat, base: nat)
    ensures
        digits_value(Seq::new(k, |i: int| '0'), base) == 0,
    decreases k,
{
    if k > 0 {
        let z = Seq::new(k, |i: int| '0');
        assert(z.drop_last() =~= Seq::new((k - 1) as nat, |i: int| '0'));
        lemma_zeros_value((k - 1) as nat, base);
    }
}

proof fn lemma_leading_zeros_value(k: nat, h: Seq<char>, base: nat)
    ensures
        digits_value(Seq::new(k, |i: int| '0') + h, base) == digits_value(h, base),
    decreases h.len(),
{
    let z = Seq::new(k, |i: int| '0');
    if h.len() == 0 {
        assert(z + h =~= z);
        lemma_zeros_value(k, base);
    } else {
        assert((z + h).drop_last() =~= z + h.drop_last());
        assert((z + h).last() == h.last());
        lemma_leading_zeros_value(k, h.drop_last(), base);
    }
}

/// `decimal(n)` renders `n` in base 10 with no padding.
pub proof fn lemma_decimal_renders(n: nat)
    ensures
        renders(decimal(n), n, 10, 0),
{
    lemma_digits_shape(n, 10);
    lemma_digits_value(n, 10);
}

/// `hex_padded(n, width)` renders `n` in base 16 padded to `width`; a byte
/// padded to two digits takes exactly two.
pub proof fn lemma_hex_padded_renders(n: nat, width: nat)
    ensures
        renders(hex_padded(n, width), n, 16, width),
        n < 256 && width == 2 ==> hex_padded(n, width).len() == 2,
{
    lemma_digits_shape(n, 16);
    lemma_digits_value(n, 16);
    let h = digits(n, 16);
    let s = hex_padded(n, width);
    if h.len() < width {
        let k = (width - h.len()) as nat;
        let z = Seq::new(k, |i: int| '0');
        assert(s == z + h);
        lemma_leading_zeros_value(k, h, 16);
        assert forall|i: int| 0 <= i < s.len() implies is_digit_of(#[trigger] s[i], 16) by {
            if i >= k {
                assert(s[i] == h[i - k]);
            }
        }
    }
    if n < 256 && width == 2 {
        if n >= 16 {
            assert(n / 16 < 16);
            assert(digits(n / 16, 16).len() == 1);
        }
    }
}

/// Reading back the digits that `digits` renders gives the number again.
pub proof fn lemma_digits_value(n: nat, base: nat)
    requires
        2 <= base <= 16,
    ensures
        digits_value(digits(n, base), base) == n,
        forall|i: int| 0 <= i < digits(n, base).len() ==>
            #[trigger] digit_value(digits(n, base)[i]) < base,
    decreases n,
{
    lemma_digit_roundtrip(n % base);
    if n < base {
        lemma_digit_roundtrip(n);
        let s = digits(n, base);
        assert(s.drop_last() =~= Seq::<char>::empty());
        assert(digits_value(s, base) == digits_value(s.drop_last(), base) * base + digit_value(
            s.last(),
        ));
    } else {
        vstd::arithmetic::div_mod::lemma_div_decreases(n as int, base as int);
        lemma_digits_value(n / base, base);
        let s = digits(n, base);
        assert(s.drop_last() =~= digits(n / base, base));
        assert(s.last() == digit_char(n % base));
        assert(digits_value(s, base) == digits_value(s.drop_last(), base) * base + digit_value(
            s.last(),
        ));
        assert((n / base) * base + n % base == n) by (nonlinear_arith)
            requires base > 0;
        assert forall|i: int| 0 <= i < s.len() implies #[trigger] digit_value(s[i]) < base by {
            if i < s.len() - 1 {
                assert(s[i] == s.drop_last()[i]);
            }
        }
    }
}

} // verus!
