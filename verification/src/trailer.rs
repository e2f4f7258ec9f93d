//! The end of a table's file: the catalog and, in the last four bytes, its
//! length.

use crate::error::{Error, FormatFault};
use crate::field::{get_i32_le, le_i32};
use vstd::prelude::*;

verus! {

/// The length that the last four bytes state.
pub open spec fn stated_size(tail: Seq<u8>) -> int {
    le_i32(tail.subrange(tail.len() - 4, tail.len() as int))
}

/// What is wrong with the end of a file, if anything: it is shorter than the
/// length field, the length is not positive, the catalog would start before
/// the bytes given, or it does not start with `{`.
pub open spec fn trailer_fault(tail: Seq<u8>) -> Option<FormatFault> {
    if tail.len() < 4 {
        Some(FormatFault::TooShort)
    } else if stated_size(tail) <= 0 {
        Some(FormatFault::MetaSize)
    } else if stated_size(tail) + 4 > tail.len() {
        Some(FormatFault::Truncated)
    } else if tail[tail.len() - 4 - stated_size(tail)] != 0x7b {
        Some(FormatFault::NotAnObject)
    } else {
        None
    }
}

/// The catalog's bytes within the end of a well-framed file.
pub open spec fn catalog_bytes(tail: Seq<u8>) -> Seq<u8> {
    tail.subrange(tail.len() - 4 - stated_size(tail), tail.len() - 4)
}

/// Reads the length of the catalog off the bytes that end a file, of which
/// the last four count.
pub fn read_meta_size(tail: &[u8]) -> (r: Result<i32, Error>)
    ensures
        tail@.len() < 4 ==> r == Err::<i32, Error>(Error::Format(FormatFault::TooShort)),
        tail@.len() >= 4 && stated_size(tail@) <= 0 ==> r == Err::<i32, Error>(
            Error::Format(FormatFault::MetaSize),
        ),
        tail@.len() >= 4 && stated_size(tail@) > 0 ==> r == Ok::<i32, Error>(
            stated_size(tail@) as i32,
        ),
{
    let len = tail.len();
    if len < 4 {
        return Err(Error::Format(FormatFault::TooShort));
    }
    let size = get_i32_le(&tail[len - 4..len]);
    if size <= 0 {
        Err(Error::Format(FormatFault::MetaSize))
    } else {
        Ok(size)
    }
}

/// Finds the catalog in the bytes that end a file: where it starts and where
/// it ends within `tail`.
pub fn locate_catalog(tail: &[u8]) -> (r: Result<(usize, usize), Error>)
    ensures
        match trailer_fault(tail@) {
            Some(fault) => r == Err::<(usize, usize), Error>(Error::Format(fault)),
            None => r == Ok::<(usize, usize), Error>(
                (
                    (tail@.len() - 4 - stated_size(tail@)) as usize,
                    (tail@.len() - 4) as usize,
                ),
            ),
        },
{
    let size = match read_meta_size(tail) {
        Ok(size) => size as usize,
        Err(e) => {
            return Err(e);
        },
    };
    let end = tail.len() - 4;
    if size > end {
        return Err(Error::Format(FormatFault::Truncated));
    }
    let start = end - size;
    if tail[start] != 0x7b {
        return Err(Error::Format(FormatFault::NotAnObject));
    }
    Ok((start, end))
}

} // verus!
