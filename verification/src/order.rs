//! `==` and `<` on [`DB721Type`].

use crate::value::{
    bytes_less, float_bits_are_nan, float_bits_key, value_above, value_at_most, value_below,
    value_comparable, value_eq, value_lt, DB721Type, Value,
};
use std::cmp::Ordering;
use vstd::prelude::*;
use vstd::std_specs::cmp::{PartialEqSpecImpl, PartialOrdSpecImpl};
use vstd::utf8::*;

verus! {

/// How two values compare: nothing where a NaN is involved, else the one of
/// equal, less and greater that [`value_eq`] and [`value_lt`] give.
pub open spec fn value_order(a: Value, b: Value) -> Option<Ordering> {
    if !value_comparable(a, b) {
        None
    } else if value_eq(a, b) {
        Some(Ordering::Equal)
    } else if value_lt(a, b) {
        Some(Ordering::Less)
    } else {
        Some(Ordering::Greater)
    }
}

impl PartialEq for DB721Type {
    fn eq(&self, other: &Self) -> (r: bool) {
        match (self, other) {
            (DB721Type::Float(x), DB721Type::Float(y)) => {
                !float_bits_are_nan(*x) && !float_bits_are_nan(*y) && float_bits_key(*x)
                    == float_bits_key(*y)
            },
            (DB721Type::Integer(x), DB721Type::Integer(y)) => *x == *y,
            (DB721Type::Str(x), DB721Type::Str(y)) => {
                proof {
                    encode_utf8_decode_utf8(x@);
                    encode_utf8_decode_utf8(y@);
                }
                *x == *y
            },
            _ => false,
        }
    }
}

impl PartialEqSpecImpl for DB721Type {
    open spec fn obeys_eq_spec() -> bool {
        true
    }

    open spec fn eq_spec(&self, other: &Self) -> bool {
        value_eq(self@, other@)
    }
}

impl PartialOrd for DB721Type {
    fn partial_cmp(&self, other: &Self) -> (r: Option<Ordering>) {
        match (self, other) {
            (DB721Type::Float(x), DB721Type::Float(y)) => {
                if float_bits_are_nan(*x) || float_bits_are_nan(*y) {
                    None
                } else {
                    let kx = float_bits_key(*x);
                    let ky = float_bits_key(*y);
                    if kx == ky {
                        Some(Ordering::Equal)
                    } else if kx < ky {
                        Some(Ordering::Less)
                    } else {
                        Some(Ordering::Greater)
                    }
                }
            },
            (DB721Type::Integer(x), DB721Type::Integer(y)) => {
                if *x == *y {
                    Some(Ordering::Equal)
                } else if *x < *y {
                    Some(Ordering::Less)
                } else {
                    Some(Ordering::Greater)
                }
            },
            (DB721Type::Str(x), DB721Type::Str(y)) => {
                proof {
                    encode_utf8_decode_utf8(x@);
                    encode_utf8_decode_utf8(y@);
                }
                if *x == *y {
                    Some(Ordering::Equal)
                } else if bytes_less(x.as_str().as_bytes(), y.as_str().as_bytes()) {
                    Some(Ordering::Less)
                } else {
                    Some(Ordering::Greater)
                }
            },
            (DB721Type::Float(_), _) => Some(Ordering::Less),
            (DB721Type::Integer(_), DB721Type::Float(_)) => Some(Ordering::Greater),
            (DB721Type::Integer(_), _) => Some(Ordering::Less),
            (DB721Type::Str(_), _) => Some(Ordering::Greater),
        }
    }
}

impl PartialOrdSpecImpl for DB721Type {
    open spec fn obeys_partial_cmp_spec() -> bool {
        true
    }

    open spec fn partial_cmp_spec(&self, other: &Self) -> Option<Ordering> {
        value_order(self@, other@)
    }
}

/// Whether `a > b`.
pub fn exceeds(a: &DB721Type, b: &DB721Type) -> (r: bool)
    ensures
        r == value_above(a@, b@),
{
    *a > *b
}

/// Whether `a <= b`.
pub fn at_most(a: &DB721Type, b: &DB721Type) -> (r: bool)
    ensures
        r == value_at_most(a@, b@),
{
    *a <= *b
}

/// Whether `a < b`.
pub fn precedes(a: &DB721Type, b: &DB721Type) -> (r: bool)
    ensures
        r == value_below(a@, b@),
{
    *a < *b
}

} // verus!
