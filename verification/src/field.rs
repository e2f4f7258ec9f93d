//! Reading one fixed-width field.

use crate::kind::ValueKind;
use crate::value::{DB721Type, Value};
use bytes::Buf;
use vstd::prelude::*;
use vstd::slice::slice_to_vec;
use vstd::utf8::*;

verus! {

/// The number that four bytes spell, least significant byte first.
pub open spec fn le_u32(b: Seq<u8>) -> int {
    b[0] + 0x100 * b[1] + 0x1_0000 * b[2] + 0x100_0000 * b[3]
}

/// The signed number that four bytes spell in two's complement, least
/// significant byte first.
pub open spec fn le_i32(b: Seq<u8>) -> int {
    if le_u32(b) >= 0x8000_0000 {
        le_u32(b) - 0x1_0000_0000
    } else {
        le_u32(b)
    }
}

/// Where the first NUL of a field stands; the field's length if it has none.
pub open spec fn first_nul(field: Seq<u8>) -> int
    decreases field.len(),
{
    if field.len() == 0 || field[0] == 0 {
        0
    } else {
        1 + first_nul(field.drop_first())
    }
}

/// The text of a string field: its bytes before the first NUL.
pub open spec fn text_of(field: Seq<u8>) -> Seq<u8> {
    field.subrange(0, first_nul(field))
}

/// The value that a field of the given kind holds. Only a string field can
/// hold none: when its bytes, padding included, are not valid UTF-8.
pub open spec fn field_value(kind: ValueKind, field: Seq<u8>) -> Option<Value> {
    match kind {
        ValueKind::Int => Some(Value::Integer(le_i32(field))),
        ValueKind::Float => Some(Value::Float(le_u32(field) as u32)),
        ValueKind::Str => if valid_utf8(field) {
            Some(Value::Str(text_of(field)))
        } else {
            None
        },
    }
}

/// `bytes::Buf::get_i32_le` on a byte slice. Trusted: the result is the
/// little-endian two's-complement reading of the first four bytes. The
/// outside function panics on fewer than four bytes, which `requires` rules
/// out.
#[verifier::external_body]
pub(crate) fn get_i32_le(field: &[u8]) -> (v: i32)
    requires
        field@.len() >= 4,
    ensures
        v == le_i32(field@),
{
    let mut buf = field;
    buf.get_i32_le()
}

/// `bytes::Buf::get_u32_le` on a byte slice. Trusted: the result is the
/// little-endian reading of the first four bytes. The outside function
/// panics on fewer than four bytes, which `requires` rules out.
#[verifier::external_body]
fn get_u32_le(field: &[u8]) -> (v: u32)
    requires
        field@.len() >= 4,
    ensures
        v == le_u32(field@),
{
    let mut buf = field;
    buf.get_u32_le()
}

/// `String::from_utf8`. Trusted: it succeeds exactly on valid UTF-8, and the
/// string it gives is spelled by the very bytes it was given.
#[verifier::external_body]
fn string_from_utf8(bytes: Vec<u8>) -> (r: Option<String>)
    ensures
        r is Some <==> valid_utf8(bytes@),
        r matches Some(s) ==> encode_utf8(s@) == bytes@,
{
    String::from_utf8(bytes).ok()
}

/// `String::truncate`. Trusted: a length within the string keeps that many
/// leading bytes, a greater one changes nothing. The outside function panics
/// on a length that splits a character, which `requires` rules out.
#[verifier::external_body]
fn truncate_string(s: &mut String, new_len: usize)
    requires
        new_len <= encode_utf8(old(s)@).len() ==> is_char_boundary(
            encode_utf8(old(s)@),
            new_len as int,
        ),
    ensures
        new_len <= encode_utf8(old(s)@).len() ==> encode_utf8(final(s)@) == encode_utf8(
            old(s)@,
        ).subrange(0, new_len as int),
        new_len > encode_utf8(old(s)@).len() ==> final(s)@ == old(s)@,
{
    s.truncate(new_len)
}

proof fn lemma_first_nul_bounds(field: Seq<u8>)
    ensures
        0 <= first_nul(field) <= field.len(),
        first_nul(field) < field.len() ==> field[first_nul(field)] == 0,
        forall|j: int| 0 <= j < first_nul(field) ==> field[j] != 0,
    decreases field.len(),
{
    if field.len() == 0 || field[0] == 0 {
    } else {
        let rest = field.drop_first();
        lemma_first_nul_bounds(rest);
        assert forall|j: int| 0 <= j < first_nul(field) implies field[j] != 0 by {
            if j > 0 {
                assert(field[j] == rest[j - 1]);
            }
        }
    }
}

/// The first NUL is where a scan from the front first meets a zero byte.
pub proof fn lemma_first_nul_is(field: Seq<u8>, n: int)
    requires
        0 <= n <= field.len(),
        forall|j: int| 0 <= j < n ==> field[j] != 0,
        n < field.len() ==> field[n] == 0,
    ensures
        first_nul(field) == n,
{
    lemma_first_nul_bounds(field);
    let m = first_nul(field);
    if m < n {
        assert(field[m] == 0);
    } else if m > n {
        assert(field[n] != 0);
    }
}

fn find_nul(field: &[u8]) -> (n: usize)
    ensures
        n == first_nul(field@),
        n <= field@.len(),
        n < field@.len() ==> field@[n as int] == 0,
{
    let mut i: usize = 0;
    while i < field.len() && field[i] != 0
        invariant
            i <= field.len(),
            forall|j: int| 0 <= j < i ==> field@[j] != 0,
        decreases field.len() - i,
    {
        i = i + 1;
    }
    proof {
        lemma_first_nul_is(field@, i as int);
    }
    i
}

/// Reads one field of the given kind: four bytes for a number, and for a
/// string all the bytes given, which must be valid UTF-8 as a whole and
/// count up to their first NUL.
pub fn read_field(kind: ValueKind, field: &[u8]) -> (r: Option<DB721Type>)
    requires
        field@.len() == kind.spec_width(),
    ensures
        r is Some <==> field_value(kind, field@) is Some,
        r matches Some(v) ==> Some(v@) == field_value(kind, field@),
{
    match kind {
        ValueKind::Int => Some(DB721Type::Integer(get_i32_le(field))),
        ValueKind::Float => Some(DB721Type::Float(get_u32_le(field))),
        ValueKind::Str => {
            match string_from_utf8(slice_to_vec(field)) {
                None => None,
                Some(text) => {
                    let mut text = text;
                    let n = find_nul(field);
                    if n < field.len() {
                        proof {
                            is_char_boundary_iff_not_is_continuation_byte(field@, n as int);
                        }
                        truncate_string(&mut text, n);
                    } else {
                        assert(field@.subrange(0, n as int) == field@);
                    }
                    Some(DB721Type::Str(text))
                },
            }
        },
    }
}

} // verus!
