//! Exact base-10 decimal values: a sign-and-magnitude mantissa of at most 96
//! bits together with a scale between 0 and 28, so that a value denotes
//! `mantissa / 10^scale`. Arithmetic and ordering are delegated to the
//! `rust_decimal` crate behind trusted wrappers; everything that can be stated
//! in a few lines (ordering, zero test, promotion from integers) carries an
//! exact contract in terms of the mathematical value.

use vstd::prelude::*;

verus! {

/// `10^n`.
pub open spec fn pow10(n: nat) -> int
    decreases n,
{
    if n == 0 {
        1
    } else {
        10 * pow10((n - 1) as nat)
    }
}

/// An exact base-10 decimal: the number `mantissa / 10^scale`.
#[derive(Debug, Clone, Copy)]
pub struct Dec {
    pub mantissa: i128,
    pub scale: u32,
}

impl Dec {
    /// The mantissa fits in 96 bits and the scale in the wire format's range.
    pub open spec fn wf(self) -> bool {
        &&& -0x1_0000_0000_0000_0000_0000_0000 < self.mantissa
            < 0x1_0000_0000_0000_0000_0000_0000
        &&& self.scale <= 28
    }

    /// The numeric value, scaled to the common denominator `10^28`:
    /// `val28(d) == d * 10^28` as mathematical numbers.
    pub open spec fn val28(self) -> int {
        self.mantissa * pow10((28 - self.scale) as nat)
    }

    /// Whether this decimal denotes zero.
    pub open spec fn is_zero_spec(self) -> bool {
        self.mantissa == 0
    }

    /// The zero-fraction decimal equal to the integer `i`.
    pub open spec fn from_int_spec(i: i64) -> Dec {
        Dec { mantissa: i as i128, scale: 0 }
    }

    /// Decide well-formedness.
    pub fn check_wf(&self) -> (r: bool)
        ensures
            r == self.wf(),
    {
        self.mantissa > -0x1_0000_0000_0000_0000_0000_0000i128 && self.mantissa
            < 0x1_0000_0000_0000_0000_0000_0000i128 && self.scale <= 28
    }

    /// Promote an integer to the decimal with the same numeric value.
    pub fn from_int(i: i64) -> (r: Dec)
        ensures
            r == Dec::from_int_spec(i),
            r.wf(),
    {
        Dec { mantissa: i as i128, scale: 0 }
    }

    /// Whether this decimal denotes zero.
    pub fn is_zero(&self) -> (r: bool)
        requires
            self.wf(),
        ensures
            r == self.is_zero_spec(),
            r == (self.val28() == 0),
    {
        proof {
            lemma_pow10_pos((28 - self.scale) as nat);
            vstd::arithmetic::mul::lemma_mul_nonzero(
                self.mantissa as int,
                pow10((28 - self.scale) as nat),
            );
        }
        self.mantissa == 0
    }
}

/// The decimal that `rust_decimal`'s checked addition returns for `a + b`:
/// the sum, rounded when it needs more than 96 bits of precision, or `None`
/// when its magnitude is out of range. The result depends on the two
/// operands alone.
pub uninterp spec fn dec_add_of(a: Dec, b: Dec) -> Option<Dec>;

/// The decimal that `rust_decimal`'s checked subtraction returns for
/// `a - b`: the difference, rounded when it needs more than 96 bits of
/// precision, or `None` when its magnitude is out of range.
pub uninterp spec fn dec_sub_of(a: Dec, b: Dec) -> Option<Dec>;

/// The decimal that `rust_decimal`'s checked multiplication returns for
/// `a * b`: the product, rounded when it needs more than 96 bits of
/// precision, or `None` when its magnitude is out of range.
pub uninterp spec fn dec_mul_of(a: Dec, b: Dec) -> Option<Dec>;

/// The decimal that `rust_decimal` parses out of the text `s`, or `None` when
/// the text is not a decimal literal it accepts.
pub uninterp spec fn dec_parse_of(s: Seq<char>) -> Option<Dec>;

impl Dec {
    /// Whether two decimals denote the same number.
    ///
    /// Relies on `rust_decimal::Decimal`'s `PartialEq`, which compares the
    /// numeric values after aligning scales.
    #[verifier::external_body]
    pub fn eq_dec(&self, other: &Dec) -> (r: bool)
        requires
            self.wf(),
            other.wf(),
        ensures
            r == (self.val28() == other.val28()),
    {
        let a = rust_decimal::Decimal::from_i128_with_scale(self.mantissa, self.scale);
        let b = rust_decimal::Decimal::from_i128_with_scale(other.mantissa, other.scale);
        a == b
    }

    /// Whether `self` denotes a strictly smaller number than `other`.
    ///
    /// Relies on `rust_decimal::Decimal`'s `Ord`, which orders by numeric
    /// value after aligning scales.
    #[verifier::external_body]
    pub fn lt_dec(&self, other: &Dec) -> (r: bool)
        requires
            self.wf(),
            other.wf(),
        ensures
            r == (self.val28() < other.val28()),
    {
        let a = rust_decimal::Decimal::from_i128_with_scale(self.mantissa, self.scale);
        let b = rust_decimal::Decimal::from_i128_with_scale(other.mantissa, other.scale);
        a < b
    }

    /// The sum of two decimals, as `rust_decimal::Decimal::checked_add`
    /// computes it: rounded at the 96-bit precision edge, `None` on
    /// overflow.
    ///
    /// Relies on `checked_add`; the result is a function of the two
    /// operands alone and is well formed whenever present.
    #[verifier::external_body]
    pub fn add_dec(&self, other: &Dec) -> (r: Option<Dec>)
        requires
            self.wf(),
            other.wf(),
        ensures
            r == dec_add_of(*self, *other),
            r is Some ==> r->Some_0.wf(),
    {
        let a = rust_decimal::Decimal::from_i128_with_scale(self.mantissa, self.scale);
        let b = rust_decimal::Decimal::from_i128_with_scale(other.mantissa, other.scale);
        match a.checked_add(b) {
            Some(d) => Some(Dec { mantissa: d.mantissa(), scale: d.scale() }),
            None => None,
        }
    }

    /// The difference `self - other` of two decimals, as
    /// `rust_decimal::Decimal::checked_sub` computes it: rounded at the
    /// 96-bit precision edge, `None` on overflow.
    ///
    /// Relies on `checked_sub`; the result is a function of the two
    /// operands alone and is well formed whenever present.
    #[verifier::external_body]
    pub fn sub_dec(&self, other: &Dec) -> (r: Option<Dec>)
        requires
            self.wf(),
            other.wf(),
        ensures
            r == dec_sub_of(*self, *other),
            r is Some ==> r->Some_0.wf(),
    {
        let a = rust_decimal::Decimal::from_i128_with_scale(self.mantissa, self.scale);
        let b = rust_decimal::Decimal::from_i128_with_scale(other.mantissa, other.scale);
        match a.checked_sub(b) {
            Some(d) => Some(Dec { mantissa: d.mantissa(), scale: d.scale() }),
            None => None,
        }
    }

    /// The product of two decimals, as `rust_decimal::Decimal::checked_mul`
    /// computes it: rounded at the 96-bit precision edge, `None` on
    /// overflow.
    ///
    /// Relies on `checked_mul`; the result is a function of the two
    /// operands alone and is well formed whenever present.
    #[verifier::external_body]
    pub fn mul_dec(&self, other: &Dec) -> (r: Option<Dec>)
        requires
            self.wf(),
            other.wf(),
        ensures
            r == dec_mul_of(*self, *other),
            r is Some ==> r->Some_0.wf(),
    {
        let a = rust_decimal::Decimal::from_i128_with_scale(self.mantissa, self.scale);
        let b = rust_decimal::Decimal::from_i128_with_scale(other.mantissa, other.scale);
        match a.checked_mul(b) {
            Some(d) => Some(Dec { mantissa: d.mantissa(), scale: d.scale() }),
            None => None,
        }
    }

    /// Parse a decimal literal.
    ///
    /// Relies on `rust_decimal::Decimal`'s `FromStr`, whose result depends on
    /// the characters of the text alone.
    #[verifier::external_body]
    pub fn parse_chars(s: &Vec<char>) -> (r: Option<Dec>)
        ensures
            r == dec_parse_of(s@),
            r is Some ==> r->Some_0.wf(),
    {
        let text: String = s.iter().collect();
        match <rust_decimal::Decimal as core::str::FromStr>::from_str(&text) {
            Ok(d) => Some(Dec { mantissa: d.mantissa(), scale: d.scale() }),
            Err(_) => None,
        }
    }

}

/// The 16-byte payload of a decimal: four flag bytes (the third is the scale,
/// the top bit of the fourth the sign), then the magnitude of the mantissa in
/// twelve little-endian bytes.
pub open spec fn dec_wire(d: Dec) -> Seq<u8> {
    let mag = (if d.mantissa < 0 {
        -d.mantissa
    } else {
        d.mantissa as int
    }) as nat;
    seq![
        0u8,
        0u8,
        d.scale as u8,
        (if d.mantissa < 0 {
            128u8
        } else {
            0u8
        }),
    ] + crate::wire::le_bytes(mag, 12)
}

/// Divide `mag` by `p`, rounding up when the remainder is at least five.
pub open spec fn div_round_half(mag: int, p: int) -> int {
    if mag % p >= 5 {
        mag / p + 1
    } else {
        mag / p
    }
}

/// The decimal a 16-byte payload denotes. All other flag bits are ignored; a
/// scale of 29 to 31 is clamped to 28 by dividing the magnitude by the
/// matching power of ten, rounding up on a remainder of five or more.
pub open spec fn dec_unwire(b: Seq<u8>) -> Dec {
    let mag = crate::wire::le_val(b.subrange(4, 16)) as int;
    let scale0 = b[2] as int % 32;
    let neg = b[3] >= 128;
    let mag2 = if scale0 > 28 {
        div_round_half(mag, pow10((scale0 - 28) as nat))
    } else {
        mag
    };
    Dec {
        mantissa: (if neg {
            -mag2
        } else {
            mag2
        }) as i128,
        scale: if scale0 > 28 {
            28u32
        } else {
            scale0 as u32
        },
    }
}

impl Dec {
    /// Append this decimal's 16-byte payload to `out`.
    pub fn to_wire(&self, out: &mut Vec<u8>)
        requires
            self.wf(),
        ensures
            final(out)@ == old(out)@ + dec_wire(*self),
    {
        let ghost base = out@;
        out.push(0u8);
        out.push(0u8);
        out.push(self.scale as u8);
        if self.mantissa < 0 {
            out.push(128u8);
        } else {
            out.push(0u8);
        }
        let mag: u128 = if self.mantissa < 0 {
            (-self.mantissa) as u128
        } else {
            self.mantissa as u128
        };
        crate::wire::push_le_bytes(out, mag, 12);
        assert(out@ =~= base + dec_wire(*self));
    }

    /// Read the decimal denoted by the 16 payload bytes of `s` at `from`.
    pub fn from_wire(s: &Vec<u8>, from: usize) -> (r: Dec)
        requires
            from + 16 <= s@.len(),
        ensures
            r == dec_unwire(s@.subrange(from as int, from + 16)),
            r.wf(),
    {
        let ghost b = s@.subrange(from as int, from + 16);
        // The length as a usize keeps the index arithmetic below in range.
        let _slen: usize = s.len();
        let mag: u128 = crate::wire::read_le_bytes(s, from + 4, 12);
        proof {
            assert(b.subrange(4, 16) =~= s@.subrange(from + 4, from + 4 + 12));
            crate::wire::lemma_le_val_bound(b.subrange(4, 16));
            assert(crate::wire::pow256(12) == 0x1_0000_0000_0000_0000_0000_0000) by {
                reveal_with_fuel(crate::wire::pow256, 13);
            }
        }
        let scale0: u8 = s[from + 2] % 32;
        let neg: bool = s[from + 3] >= 128;
        let (mag2, scale2): (u128, u32) = if scale0 > 28 {
            let p: u128 = if scale0 == 29 {
                10
            } else if scale0 == 30 {
                100
            } else {
                1000
            };
            proof {
                reveal_with_fuel(pow10, 4);
            }
            let q: u128 = if mag % p >= 5 {
                mag / p + 1
            } else {
                mag / p
            };
            (q, 28u32)
        } else {
            (mag, scale0 as u32)
        };
        assert(mag2 < 0x1_0000_0000_0000_0000_0000_0000);
        Dec {
            mantissa: if neg {
                -(mag2 as i128)
            } else {
                mag2 as i128
            },
            scale: scale2,
        }
    }
}

/// Encoding a well-formed decimal and decoding the payload yields the same
/// decimal back.
pub proof fn lemma_dec_wire_round_trip(d: Dec)
    requires
        d.wf(),
    ensures
        dec_wire(d).len() == 16,
        dec_unwire(dec_wire(d)) == d,
{
    let b = dec_wire(d);
    let mag = (if d.mantissa < 0 {
        -d.mantissa
    } else {
        d.mantissa as int
    }) as nat;
    assert(crate::wire::pow256(12) == 0x1_0000_0000_0000_0000_0000_0000) by {
        reveal_with_fuel(crate::wire::pow256, 13);
    }
    crate::wire::lemma_le_round_trip(mag, 12);
    assert(b.subrange(4, 16) =~= crate::wire::le_bytes(mag, 12));
    assert(b[2] == d.scale as u8 && b[3] == (if d.mantissa < 0 {
        128u8
    } else {
        0u8
    }));
}

/// `10^n > 0`.
pub proof fn lemma_pow10_pos(n: nat)
    ensures
        pow10(n) >= 1,
    decreases n,
{
    if n > 0 {
        lemma_pow10_pos((n - 1) as nat);
    }
}

} // verus!
