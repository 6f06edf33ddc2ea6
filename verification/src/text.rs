//! The textual form of the machine's values, specified down to the byte:
//! integers as decimal digits with a leading minus sign, decimals as sign,
//! integer part, and exactly `scale` fraction digits.

use crate::dec::{pow10, Dec};
use vstd::prelude::*;

verus! {

/// The decimal digit bytes of `n`, most significant first.
pub open spec fn digits_bytes(n: nat) -> Seq<u8>
    decreases n,
{
    if n < 10 {
        seq![(48 + n) as u8]
    } else {
        digits_bytes(n / 10) + seq![(48 + n % 10) as u8]
    }
}

/// The base-10 text of the integer `i`, as bytes.
pub open spec fn int_bytes(i: int) -> Seq<u8> {
    if i < 0 {
        seq![45u8] + digits_bytes((-i) as nat)
    } else {
        digits_bytes(i as nat)
    }
}

/// Exactly `width` digit bytes of `n`, zero-padded at the front.
pub open spec fn pad_digits(n: nat, width: nat) -> Seq<u8>
    decreases width,
{
    if width == 0 {
        Seq::empty()
    } else {
        pad_digits(n / 10, (width - 1) as nat) + seq![(48 + n % 10) as u8]
    }
}

/// The canonical text of the decimal `m / 10^s`: an optional minus sign and
/// the integer part, then — whenever the scale is positive — a point and
/// exactly `s` fraction digits.
pub open spec fn dec_bytes(m: int, s: nat) -> Seq<u8> {
    let a = (if m < 0 {
        -m
    } else {
        m
    }) as nat;
    let sign: Seq<u8> = if m < 0 {
        seq![45u8]
    } else {
        Seq::empty()
    };
    if s == 0 {
        sign + digits_bytes(a)
    } else {
        sign + digits_bytes(a / pow10(s) as nat) + seq![46u8] + pad_digits(a % pow10(s) as nat, s)
    }
}

/// The display text of an integer: decimal digits, preceded by `-` when
/// negative.
pub fn fmt_i64(i: i64) -> (r: Vec<u8>)
    ensures
        r@ == int_bytes(i as int),
{
    let neg: bool = i < 0;
    let mag0: u64 = if i < 0 {
        (-(i as i128)) as u64
    } else {
        i as u64
    };
    let ghost n0 = mag0 as nat;
    let mut cur: u64 = mag0;
    let mut revd: Vec<u8> = Vec::new();
    assert(digits_bytes(n0) + revd@.reverse() =~= digits_bytes(n0));
    while cur >= 10
        invariant
            digits_bytes(n0) == digits_bytes(cur as nat) + revd@.reverse(),
        decreases cur,
    {
        let ghost pre = revd@;
        let d: u8 = (cur % 10) as u8 + 48;
        revd.push(d);
        proof {
            assert(digits_bytes(cur as nat) == digits_bytes(cur as nat / 10) + seq![
                (48 + cur as nat % 10) as u8,
            ]);
            assert(revd@.reverse() =~= seq![d] + pre.reverse());
            assert(digits_bytes(cur as nat / 10) + (seq![d] + pre.reverse()) =~= (digits_bytes(
                cur as nat / 10,
            ) + seq![d]) + pre.reverse());
            assert(cur as nat / 10 == (cur / 10) as nat);
        }
        cur = cur / 10;
    }
    let ghost sign: Seq<u8> = if neg {
        seq![45u8]
    } else {
        Seq::empty()
    };
    let mut out: Vec<u8> = Vec::new();
    if neg {
        out.push(45u8);
    }
    out.push(cur as u8 + 48);
    assert(out@ =~= sign + digits_bytes(cur as nat));
    let ghost head = sign + digits_bytes(cur as nat);
    let mut j: usize = revd.len();
    assert(revd@.reverse().take(revd@.len() - j) =~= Seq::<u8>::empty());
    assert(out@ =~= head + revd@.reverse().take(revd@.len() - j));
    while j > 0
        invariant
            j <= revd@.len(),
            out@ == head + revd@.reverse().take(revd@.len() - j),
        decreases j,
    {
        j = j - 1;
        out.push(revd[j]);
        proof {
            assert(revd@.reverse()[revd@.len() - j - 1] == revd@[j as int]);
            assert(out@ =~= head + revd@.reverse().take(revd@.len() - j));
        }
    }
    proof {
        assert(revd@.reverse().take(revd@.len() as int) =~= revd@.reverse());
        assert(out@ =~= sign + digits_bytes(n0));
        if neg {
            assert(mag0 as int == -(i as int));
        }
    }
    out
}

/// The display text of a decimal.
///
/// Relies on `rust_decimal::Decimal`'s `Display`: sign, integer part, and the
/// scale's worth of fraction digits after a point.
#[verifier::external_body]
pub fn fmt_dec(d: &Dec) -> (r: Vec<u8>)
    requires
        d.wf(),
    ensures
        r@ == dec_bytes(d.mantissa as int, d.scale as nat),
{
    let v = rust_decimal::Decimal::from_i128_with_scale(d.mantissa, d.scale);
    format!("{}", v).into_bytes()
}

/// Whether `v` is a Unicode scalar value: in range and not a surrogate.
pub open spec fn is_scalar_value(v: u32) -> bool {
    v < 0xD800 || (0xE000 <= v && v <= 0x10FFFF)
}

/// The UTF-8 bytes of the character with scalar value `v`: one to four
/// bytes, by the value's range.
pub fn fmt_scalar(v: u32) -> (r: Vec<u8>)
    requires
        is_scalar_value(v),
    ensures
        r@ == vstd::utf8::encode_scalar(v),
{
    let mut out: Vec<u8> = Vec::new();
    if v <= 0x7F {
        out.push(#[verifier::truncate] ((v & 0x7F) as u8));
    } else if v <= 0x7FF {
        out.push(0xC0u8 | #[verifier::truncate] (((v >> 6) & 0x1F) as u8));
        out.push(0x80u8 | #[verifier::truncate] ((v & 0x3F) as u8));
    } else if v <= 0xFFFF {
        out.push(0xE0u8 | #[verifier::truncate] (((v >> 12) & 0x0F) as u8));
        out.push(0x80u8 | #[verifier::truncate] (((v >> 6) & 0x3F) as u8));
        out.push(0x80u8 | #[verifier::truncate] ((v & 0x3F) as u8));
    } else {
        out.push(0xF0u8 | #[verifier::truncate] (((v >> 18) & 0x7) as u8));
        out.push(0x80u8 | #[verifier::truncate] (((v >> 12) & 0x3F) as u8));
        out.push(0x80u8 | #[verifier::truncate] (((v >> 6) & 0x3F) as u8));
        out.push(0x80u8 | #[verifier::truncate] ((v & 0x3F) as u8));
    }
    assert(out@ =~= vstd::utf8::encode_scalar(v));
    out
}

/// The characters of a string slice, in order.
///
/// Relies on `str::chars`, which yields exactly the characters the string's
/// view holds.
#[verifier::external_body]
pub fn chars_of(s: &str) -> (r: Vec<char>)
    ensures
        r@ == s@,
{
    s.chars().collect()
}

/// Append a byte slice to `out`.
pub fn push_bytes(out: &mut Vec<u8>, bs: &[u8])
    ensures
        final(out)@ == old(out)@ + bs@,
{
    let len: usize = bs.len();
    let mut i: usize = 0;
    let ghost base = out@;
    while i < len
        invariant
            i <= len,
            len == bs@.len(),
            out@ == base + bs@.subrange(0, i as int),
        decreases len - i,
    {
        out.push(bs[i]);
        assert(out@ =~= base + bs@.subrange(0, i + 1));
        i = i + 1;
    }
    assert(out@ =~= base + bs@);
}

} // verus!
