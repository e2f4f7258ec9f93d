//! Typed column values and their mathematical model.

use vstd::prelude::*;
use vstd::utf8::*;

verus! {

/// One stored value.
///
/// `Float` holds the IEEE-754 binary32 bit pattern of the number, so that the
/// value is a plain integer here; `Str` holds the text of a fixed-width field
/// up to its first NUL.
#[derive(Debug)]
pub enum DB721Type {
    Float(u32),
    Integer(i32),
    Str(String),
}

/// What a [`DB721Type`] stands for: the bit pattern of a float, the integer,
/// or the UTF-8 bytes of a string.
pub ghost enum Value {
    Float(u32),
    Integer(int),
    Str(Seq<u8>),
}

impl View for DB721Type {
    type V = Value;

    open spec fn view(&self) -> Value {
        match self {
            DB721Type::Float(bits) => Value::Float(*bits),
            DB721Type::Integer(i) => Value::Integer(*i as int),
            DB721Type::Str(s) => Value::Str(encode_utf8(s@)),
        }
    }
}

impl Clone for DB721Type {
    fn clone(&self) -> (r: Self)
        ensures
            r == *self,
    {
        match self {
            DB721Type::Float(bits) => DB721Type::Float(*bits),
            DB721Type::Integer(i) => DB721Type::Integer(*i),
            DB721Type::Str(s) => DB721Type::Str(s.clone()),
        }
    }
}

/// The bit pattern without its sign bit.
pub open spec fn float_magnitude(bits: u32) -> int {
    if bits >= 0x8000_0000 {
        bits - 0x8000_0000
    } else {
        bits as int
    }
}

/// A bit pattern is a NaN when its exponent is all ones and its fraction is not zero.
pub open spec fn float_is_nan(bits: u32) -> bool {
    float_magnitude(bits) > 0x7f80_0000
}

/// An integer that orders the numbers that are not NaN as IEEE-754 does:
/// the magnitude for a clear sign bit, its negation for a set one, so that
/// both zeros share the key 0.
pub open spec fn float_key(bits: u32) -> int {
    if bits >= 0x8000_0000 {
        -(bits - 0x8000_0000)
    } else {
        bits as int
    }
}

/// Byte-lexicographic order: `a` comes before `b` when it is a proper prefix
/// of `b` or holds the smaller byte where the two first differ.
pub open spec fn lex_less(a: Seq<u8>, b: Seq<u8>) -> bool
    decreases a.len(),
{
    if b.len() == 0 {
        false
    } else if a.len() == 0 {
        true
    } else if a[0] != b[0] {
        a[0] < b[0]
    } else {
        lex_less(a.drop_first(), b.drop_first())
    }
}

/// The position of a variant in the declaration of [`DB721Type`].
pub open spec fn variant_rank(v: Value) -> int {
    match v {
        Value::Float(_) => 0,
        Value::Integer(_) => 1,
        Value::Str(_) => 2,
    }
}

/// Equality of values: floats compare as numbers (a NaN equals nothing, the
/// two zeros are equal), integers and strings by their contents.
pub open spec fn value_eq(a: Value, b: Value) -> bool {
    match (a, b) {
        (Value::Float(x), Value::Float(y)) => !float_is_nan(x) && !float_is_nan(y) && float_key(x)
            == float_key(y),
        (Value::Integer(x), Value::Integer(y)) => x == y,
        (Value::Str(x), Value::Str(y)) => x == y,
        _ => false,
    }
}

/// Strict order of values: numeric within `Float` and `Integer`,
/// byte-lexicographic within `Str`, and by variant across variants.
pub open spec fn value_lt(a: Value, b: Value) -> bool {
    match (a, b) {
        (Value::Float(x), Value::Float(y)) => !float_is_nan(x) && !float_is_nan(y) && float_key(x)
            < float_key(y),
        (Value::Integer(x), Value::Integer(y)) => x < y,
        (Value::Str(x), Value::Str(y)) => lex_less(x, y),
        _ => variant_rank(a) < variant_rank(b),
    }
}

/// Whether two values can be ordered at all: only a NaN is beyond comparison.
pub open spec fn value_comparable(a: Value, b: Value) -> bool {
    match (a, b) {
        (Value::Float(x), Value::Float(y)) => !float_is_nan(x) && !float_is_nan(y),
        _ => true,
    }
}

/// `a` comes before `b` or equals it.
pub open spec fn value_at_most(a: Value, b: Value) -> bool {
    value_comparable(a, b) && (value_eq(a, b) || value_lt(a, b))
}

/// `a` comes strictly before `b`.
pub open spec fn value_below(a: Value, b: Value) -> bool {
    value_comparable(a, b) && !value_eq(a, b) && value_lt(a, b)
}

/// `a` comes strictly after `b`.
pub open spec fn value_above(a: Value, b: Value) -> bool {
    value_comparable(a, b) && !value_eq(a, b) && !value_lt(a, b)
}

pub(crate) fn float_bits_are_nan(bits: u32) -> (r: bool)
    ensures
        r == float_is_nan(bits),
{
    if bits >= 0x8000_0000 {
        bits - 0x8000_0000 > 0x7f80_0000
    } else {
        bits > 0x7f80_0000
    }
}

pub(crate) fn float_bits_key(bits: u32) -> (r: i64)
    ensures
        r == float_key(bits),
{
    if bits >= 0x8000_0000 {
        -((bits - 0x8000_0000) as i64)
    } else {
        bits as i64
    }
}

/// After a common prefix of length `i`, the order of two sequences is the
/// order of what follows the prefix.
proof fn lemma_lex_less_skip(a: Seq<u8>, b: Seq<u8>, i: int)
    requires
        0 <= i <= a.len(),
        i <= b.len(),
        a.subrange(0, i) == b.subrange(0, i),
    ensures
        lex_less(a, b) == lex_less(a.skip(i), b.skip(i)),
    decreases i,
{
    if i == 0 {
        assert(a.skip(0) == a);
        assert(b.skip(0) == b);
    } else {
        assert(a[0] == a.subrange(0, i)[0]);
        assert(b[0] == b.subrange(0, i)[0]);
        assert(a.drop_first().subrange(0, i - 1) == a.subrange(0, i).drop_first());
        assert(b.drop_first().subrange(0, i - 1) == b.subrange(0, i).drop_first());
        lemma_lex_less_skip(a.drop_first(), b.drop_first(), i - 1);
        assert(a.drop_first().skip(i - 1) == a.skip(i));
        assert(b.drop_first().skip(i - 1) == b.skip(i));
    }
}

/// Byte-lexicographic comparison of two byte strings.
pub(crate) fn bytes_less(a: &[u8], b: &[u8]) -> (r: bool)
    ensures
        r == lex_less(a@, b@),
{
    let mut i: usize = 0;
    while i < a.len() && i < b.len()
        invariant
            i <= a.len(),
            i <= b.len(),
            a@.subrange(0, i as int) == b@.subrange(0, i as int),
        decreases a.len() - i,
    {
        if a[i] != b[i] {
            proof {
                lemma_lex_less_skip(a@, b@, i as int);
            }
            return a[i] < b[i];
        }
        assert(a@.subrange(0, i + 1) == a@.subrange(0, i as int).push(a@[i as int]));
        assert(b@.subrange(0, i + 1) == b@.subrange(0, i as int).push(b@[i as int]));
        i = i + 1;
    }
    proof {
        lemma_lex_less_skip(a@, b@, i as int);
    }
    i < b.len()
}

} // verus!
