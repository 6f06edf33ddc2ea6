//! The machine's scalar values: a signed 64-bit integer or an exact base-10
//! decimal. Arithmetic is defined only between two values of the same
//! variant; equality and ordering promote an integer to the zero-fraction
//! decimal of the same numeric value and always succeed.

use crate::dec::{dec_add_of, dec_mul_of, dec_sub_of, pow10, Dec};
use crate::text::{dec_bytes, fmt_dec, fmt_i64, int_bytes};
use core::cmp::Ordering;
use vstd::prelude::*;

verus! {

/// A scalar value of the machine.
#[derive(Debug, Clone, Copy)]
pub enum Data {
    Int(i64),
    Float(Dec),
}

impl Data {
    /// A decimal payload is well formed.
    pub open spec fn wf(self) -> bool {
        match self {
            Data::Int(_) => true,
            Data::Float(d) => d.wf(),
        }
    }

    /// The numeric value scaled by `10^28`, the common denominator of both
    /// variants; equality and order of values go by this number.
    pub open spec fn num28(self) -> int {
        match self {
            Data::Int(i) => i * pow10(28),
            Data::Float(d) => d.val28(),
        }
    }

    /// What addition returns: the wrapped sum of two integers, the checked
    /// decimal sum of two decimals, and nothing across variants.
    pub open spec fn add_spec(a: Data, b: Data) -> Option<Data> {
        match (a, b) {
            (Data::Int(x), Data::Int(y)) => Some(Data::Int(x.wrapping_add(y))),
            (Data::Float(x), Data::Float(y)) => match dec_add_of(x, y) {
                Some(d) => Some(Data::Float(d)),
                None => None,
            },
            _ => None,
        }
    }

    /// What subtraction returns, as `add_spec` with the difference.
    pub open spec fn sub_spec(a: Data, b: Data) -> Option<Data> {
        match (a, b) {
            (Data::Int(x), Data::Int(y)) => Some(Data::Int(x.wrapping_sub(y))),
            (Data::Float(x), Data::Float(y)) => match dec_sub_of(x, y) {
                Some(d) => Some(Data::Float(d)),
                None => None,
            },
            _ => None,
        }
    }

    /// What multiplication returns, as `add_spec` with the product.
    pub open spec fn mul_spec(a: Data, b: Data) -> Option<Data> {
        match (a, b) {
            (Data::Int(x), Data::Int(y)) => Some(Data::Int(x.wrapping_mul(y))),
            (Data::Float(x), Data::Float(y)) => match dec_mul_of(x, y) {
                Some(d) => Some(Data::Float(d)),
                None => None,
            },
            _ => None,
        }
    }

    /// Add two values of the same variant; `None` across variants.
    pub fn add(&self, rhs: &Data) -> (r: Option<Data>)
        requires
            self.wf(),
            rhs.wf(),
        ensures
            r == Data::add_spec(*self, *rhs),
            r is Some ==> r->Some_0.wf(),
    {
        match (self, rhs) {
            (Data::Int(a), Data::Int(b)) => Some(Data::Int(a.wrapping_add(*b))),
            (Data::Float(a), Data::Float(b)) => match a.add_dec(b) {
                Some(d) => Some(Data::Float(d)),
                None => None,
            },
            _ => None,
        }
    }

    /// Subtract `rhs` from `self` within one variant; `None` across variants.
    pub fn sub(&self, rhs: &Data) -> (r: Option<Data>)
        requires
            self.wf(),
            rhs.wf(),
        ensures
            r == Data::sub_spec(*self, *rhs),
            r is Some ==> r->Some_0.wf(),
    {
        match (self, rhs) {
            (Data::Int(a), Data::Int(b)) => Some(Data::Int(a.wrapping_sub(*b))),
            (Data::Float(a), Data::Float(b)) => match a.sub_dec(b) {
                Some(d) => Some(Data::Float(d)),
                None => None,
            },
            _ => None,
        }
    }

    /// Multiply two values of the same variant; `None` across variants.
    pub fn mul(&self, rhs: &Data) -> (r: Option<Data>)
        requires
            self.wf(),
            rhs.wf(),
        ensures
            r == Data::mul_spec(*self, *rhs),
            r is Some ==> r->Some_0.wf(),
    {
        match (self, rhs) {
            (Data::Int(a), Data::Int(b)) => Some(Data::Int(a.wrapping_mul(*b))),
            (Data::Float(a), Data::Float(b)) => match a.mul_dec(b) {
                Some(d) => Some(Data::Float(d)),
                None => None,
            },
            _ => None,
        }
    }

    /// The display text of this value, as bytes.
    pub open spec fn text_spec(self) -> Seq<u8> {
        match self {
            Data::Int(i) => int_bytes(i as int),
            Data::Float(d) => dec_bytes(d.mantissa as int, d.scale as nat),
        }
    }

    /// Render this value as its display text.
    pub fn to_text(&self) -> (r: Vec<u8>)
        requires
            self.wf(),
        ensures
            r@ == self.text_spec(),
    {
        match self {
            Data::Int(i) => fmt_i64(*i),
            Data::Float(d) => fmt_dec(d),
        }
    }
}

/// Multiplying by the positive constant `10^28` keeps equality and order.
pub proof fn lemma_scale_order(x: int, y: int)
    ensures
        (x * pow10(28) == y * pow10(28)) == (x == y),
        (x * pow10(28) < y * pow10(28)) == (x < y),
{
    crate::dec::lemma_pow10_pos(28);
    assert((x * pow10(28) == y * pow10(28)) == (x == y) && (x * pow10(28) < y * pow10(28)) == (x
        < y))
        by (nonlinear_arith)
        requires
            pow10(28) >= 1,
    ;
}

/// Promoting an integer to a decimal keeps its numeric value, so comparisons
/// of an integer with a decimal agree with comparisons of the promoted
/// decimal with that decimal.
pub proof fn lemma_promotion(x: i64, d: Dec)
    requires
        d.wf(),
    ensures
        Data::Int(x).num28() == Data::Float(Dec::from_int_spec(x)).num28(),
        (Data::Int(x).num28() == Data::Float(d).num28()) == (Dec::from_int_spec(x).val28()
            == d.val28()),
        (Data::Int(x).num28() < Data::Float(d).num28()) == (Dec::from_int_spec(x).val28()
            < d.val28()),
{
}

impl Data {
    /// Decide well-formedness.
    pub fn check_wf(&self) -> (r: bool)
        ensures
            r == self.wf(),
    {
        match self {
            Data::Int(_) => true,
            Data::Float(d) => d.check_wf(),
        }
    }

    /// The decimal carrying this value's number: the payload of a decimal,
    /// the promotion of an integer.
    pub fn promote(&self) -> (r: Dec)
        requires
            self.wf(),
        ensures
            r.wf(),
            r.val28() == self.num28(),
    {
        match self {
            Data::Int(i) => Dec::from_int(*i),
            Data::Float(d) => *d,
        }
    }
}

/// Whether two values are the same value, field for field.
fn eq_structural(a: &Data, b: &Data) -> (r: bool)
    ensures
        r == (*a == *b),
{
    match (a, b) {
        (Data::Int(x), Data::Int(y)) => x == y,
        (Data::Float(x), Data::Float(y)) => x.mantissa == y.mantissa && x.scale == y.scale,
        _ => false,
    }
}

impl PartialEq for Data {
    /// Well-formed values are equal when they denote the same number,
    /// promoting an integer to a zero-fraction decimal when the variants
    /// differ; a value with a malformed decimal payload is compared field
    /// for field, so equality stays reflexive.
    fn eq(&self, other: &Data) -> (r: bool) {
        if !self.check_wf() || !other.check_wf() {
            return eq_structural(self, other);
        }
        match (self, other) {
            (Data::Int(a), Data::Int(b)) => {
                proof {
                    lemma_scale_order(*a as int, *b as int);
                }
                a == b
            },
            (Data::Int(a), Data::Float(b)) => Dec::from_int(*a).eq_dec(b),
            (Data::Float(a), Data::Int(b)) => a.eq_dec(&Dec::from_int(*b)),
            (Data::Float(a), Data::Float(b)) => a.eq_dec(b),
        }
    }
}

impl vstd::std_specs::cmp::PartialEqSpecImpl for Data {
    open spec fn obeys_eq_spec() -> bool {
        true
    }

    open spec fn eq_spec(&self, other: &Data) -> bool {
        if self.wf() && other.wf() {
            self.num28() == other.num28()
        } else {
            *self == *other
        }
    }
}

impl Eq for Data {

}

impl PartialOrd for Data {
    /// The total order on numeric values of well-formed data, under the same
    /// promotion rule. A value with a malformed decimal payload is
    /// comparable only to itself, agreeing with equality.
    fn partial_cmp(&self, other: &Data) -> (r: Option<Ordering>) {
        if !self.check_wf() || !other.check_wf() {
            if eq_structural(self, other) {
                return Some(Ordering::Equal);
            }
            return None;
        }
        let a = self.promote();
        let b = other.promote();
        if a.lt_dec(&b) {
            Some(Ordering::Less)
        } else if b.lt_dec(&a) {
            Some(Ordering::Greater)
        } else {
            Some(Ordering::Equal)
        }
    }
}

impl vstd::std_specs::cmp::PartialOrdSpecImpl for Data {
    open spec fn obeys_partial_cmp_spec() -> bool {
        true
    }

    open spec fn partial_cmp_spec(&self, other: &Data) -> Option<Ordering> {
        if !(self.wf() && other.wf()) {
            if *self == *other {
                Some(Ordering::Equal)
            } else {
                None
            }
        } else if self.num28() < other.num28() {
            Some(Ordering::Less)
        } else if self.num28() == other.num28() {
            Some(Ordering::Equal)
        } else {
            Some(Ordering::Greater)
        }
    }
}

} // verus!
