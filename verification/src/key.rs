//! The keys under which a catalog lists the blocks of a column: a block's
//! index in decimal, as short as it can be written.

use vstd::prelude::*;
use vstd::string::*;

verus! {

/// Whether a character is one of the ten digits.
pub open spec fn is_digit(c: char) -> bool {
    '0' <= c <= '9'
}

/// The number that a string of digits spells.
pub open spec fn decimal_value(s: Seq<char>) -> int
    decreases s.len(),
{
    if s.len() == 0 {
        0
    } else {
        decimal_value(s.drop_last()) * 10 + (s.last() as int - '0' as int)
    }
}

/// Whether a string is the key of a block: digits only, at least one, no
/// zero in front of another digit, and no more than an index can be.
pub open spec fn is_block_key(s: Seq<char>) -> bool {
    &&& s.len() >= 1
    &&& forall|i: int| 0 <= i < s.len() ==> is_digit(#[trigger] s[i])
    &&& (s.len() > 1 ==> s[0] != '0')
    &&& decimal_value(s) <= i32::MAX
}

/// The index that a key names, if it is the key of a block.
pub open spec fn block_index_of(s: Seq<char>) -> Option<int> {
    if is_block_key(s) {
        Some(decimal_value(s))
    } else {
        None
    }
}

proof fn lemma_decimal_value_grows(s: Seq<char>)
    requires
        forall|i: int| 0 <= i < s.len() ==> is_digit(#[trigger] s[i]),
    ensures
        decimal_value(s) >= 0,
        s.len() > 0 ==> decimal_value(s) >= decimal_value(s.drop_last()),
    decreases s.len(),
{
    if s.len() > 0 {
        let front = s.drop_last();
        assert forall|i: int| 0 <= i < front.len() implies is_digit(#[trigger] front[i]) by {
            assert(front[i] == s[i]);
        }
        lemma_decimal_value_grows(front);
        assert(is_digit(s[s.len() - 1]));
    }
}

/// Reads the key of a block. Anything but the shortest decimal spelling of
/// an index is no key: a scan would never look a block up under it.
pub fn parse_block_index(key: &str) -> (r: Option<i32>)
    ensures
        match r {
            Some(index) => block_index_of(key@) == Some(index as int),
            None => block_index_of(key@) is None,
        },
{
    if !key.is_ascii() {
        proof {
            if is_block_key(key@) {
                assert forall|i: int| 0 <= i < key@.len() implies '\0' <= #[trigger] key@[i]
                    <= '\u{7f}' by {
                    assert(is_digit(key@[i]));
                }
            }
        }
        return None;
    }
    let len = key.unicode_len();
    if len == 0 {
        return None;
    }
    if len > 1 && key.get_ascii(0) == 48 {
        return None;
    }
    let mut value: i64 = 0;
    let mut beyond = false;
    let mut i: usize = 0;
    while i < len
        invariant
            i <= len,
            len == key@.len(),
            is_ascii(key),
            forall|j: int| 0 <= j < i ==> is_digit(#[trigger] key@[j]),
            !beyond ==> value == decimal_value(key@.subrange(0, i as int)) && 0 <= value
                <= i32::MAX,
            beyond ==> decimal_value(key@.subrange(0, i as int)) > i32::MAX,
        decreases len - i,
    {
        let b = key.get_ascii(i);
        if b < 48 || b > 57 {
            assert(!is_digit(key@[i as int]));
            return None;
        }
        proof {
            let next = key@.subrange(0, i + 1);
            assert(next.drop_last() == key@.subrange(0, i as int));
            assert(next.last() == key@[i as int]);
            assert forall|j: int| 0 <= j < next.len() implies is_digit(#[trigger] next[j]) by {
                assert(next[j] == key@[j]);
            }
            lemma_decimal_value_grows(next);
        }
        if !beyond {
            let digit = (b - 48) as i64;
            if value * 10 + digit > 0x7fff_ffff {
                beyond = true;
            } else {
                value = value * 10 + digit;
            }
        }
        i = i + 1;
    }
    assert(key@.subrange(0, i as int) == key@);
    if beyond {
        None
    } else {
        Some(value as i32)
    }
}

} // verus!
