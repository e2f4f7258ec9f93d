//! The statistics kept for one block of a column.

use crate::error::{Error, FormatFault};
use crate::kind::ValueKind;
use crate::order::at_most;
use crate::value::{value_at_most, variant_rank, DB721Type, Value};
use vstd::prelude::*;

verus! {

/// Statistics of one block as the catalog states them.
#[derive(Debug)]
pub struct BlockMeta {
    value_num: i32,
    min: DB721Type,
    max: DB721Type,
    min_len: Option<i32>,
    max_len: Option<i32>,
}

/// What a [`BlockMeta`] says: how many values the block holds, the least and
/// the greatest of them, and for strings the least and greatest length.
pub ghost struct BlockStats {
    pub count: int,
    pub min: Value,
    pub max: Value,
    pub min_len: Option<i32>,
    pub max_len: Option<i32>,
}

/// The variant in which a column of the given kind holds its values.
pub open spec fn kind_rank(kind: ValueKind) -> int {
    match kind {
        ValueKind::Float => 0,
        ValueKind::Int => 1,
        ValueKind::Str => 2,
    }
}

/// Whether a value is of the variant that a column of the given kind holds.
pub open spec fn value_fits(kind: ValueKind, v: Value) -> bool {
    variant_rank(v) == kind_rank(kind)
}

impl BlockStats {
    /// A block never holds a negative number of values, and its least
    /// value is at most its greatest.
    pub open spec fn wf(self) -> bool {
        self.count >= 0 && value_at_most(self.min, self.max)
    }

    /// Whether both bounds are of the variant that the kind asks for.
    pub open spec fn fits(self, kind: ValueKind) -> bool {
        value_fits(kind, self.min) && value_fits(kind, self.max)
    }
}

/// Whether a value is of the variant that a column of the given kind holds.
pub fn value_is_of(kind: ValueKind, v: &DB721Type) -> (r: bool)
    ensures
        r == value_fits(kind, v@),
{
    match (kind, v) {
        (ValueKind::Float, DB721Type::Float(_)) => true,
        (ValueKind::Int, DB721Type::Integer(_)) => true,
        (ValueKind::Str, DB721Type::Str(_)) => true,
        _ => false,
    }
}

/// Why statistics are refused, if they are.
pub open spec fn stats_fault(value_num: i32, min: Value, max: Value) -> Option<FormatFault> {
    if value_num < 0 {
        Some(FormatFault::ValueCount)
    } else if !value_at_most(min, max) {
        Some(FormatFault::ValueRange)
    } else {
        None
    }
}

impl View for BlockMeta {
    type V = BlockStats;

    closed spec fn view(&self) -> BlockStats {
        BlockStats {
            count: self.value_num as int,
            min: self.min@,
            max: self.max@,
            min_len: self.min_len,
            max_len: self.max_len,
        }
    }
}

impl Clone for BlockMeta {
    fn clone(&self) -> (r: Self)
        ensures
            r == *self,
    {
        proof {
            use_type_invariant(self);
        }
        BlockMeta {
            value_num: self.value_num,
            min: self.min.clone(),
            max: self.max.clone(),
            min_len: self.min_len,
            max_len: self.max_len,
        }
    }
}

impl BlockMeta {
    #[verifier::type_invariant]
    spec fn inv(self) -> bool {
        self@.wf()
    }

    /// Statistics of a block of `value_num` values that lie between `min`
    /// and `max`. A negative count is not of the format, nor is a least
    /// value that is not at most the greatest.
    pub fn new(
        value_num: i32,
        min: DB721Type,
        max: DB721Type,
        min_len: Option<i32>,
        max_len: Option<i32>,
    ) -> (r: Result<BlockMeta, Error>)
        ensures
            match stats_fault(value_num, min@, max@) {
                Some(fault) => r == Err::<BlockMeta, Error>(Error::Format(fault)),
                None => r is Ok && r->Ok_0@ == (BlockStats {
                    count: value_num as int,
                    min: min@,
                    max: max@,
                    min_len,
                    max_len,
                }) && r->Ok_0@.wf(),
            },
    {
        if value_num < 0 {
            Err(Error::Format(FormatFault::ValueCount))
        } else if !at_most(&min, &max) {
            Err(Error::Format(FormatFault::ValueRange))
        } else {
            Ok(BlockMeta { value_num, min, max, min_len, max_len })
        }
    }

    /// Statistics of a block without values.
    pub fn empty() -> (r: BlockMeta)
        ensures
            r@ == (BlockStats {
                count: 0,
                min: Value::Integer(0),
                max: Value::Integer(0),
                min_len: None,
                max_len: None,
            }),
    {
        BlockMeta {
            value_num: 0,
            min: DB721Type::Integer(0),
            max: DB721Type::Integer(0),
            min_len: None,
            max_len: None,
        }
    }

    /// The number of values in the block.
    pub fn value_num(&self) -> (r: i32)
        ensures
            r == self@.count,
            self@.wf(),
    {
        proof {
            use_type_invariant(self);
        }
        self.value_num
    }

    /// The least value of the block.
    pub fn min(&self) -> (r: &DB721Type)
        ensures
            r@ == self@.min,
    {
        &self.min
    }

    /// The greatest value of the block.
    pub fn max(&self) -> (r: &DB721Type)
        ensures
            r@ == self@.max,
    {
        &self.max
    }

    /// The least length among the block's strings, where the catalog gives it.
    pub fn min_len(&self) -> (r: Option<i32>)
        ensures
            r == self@.min_len,
    {
        self.min_len
    }

    /// The greatest length among the block's strings, where the catalog gives it.
    pub fn max_len(&self) -> (r: Option<i32>)
        ensures
            r == self@.max_len,
    {
        self.max_len
    }

    /// Whether both bounds are of the variant that the kind asks for.
    pub fn fits(&self, kind: ValueKind) -> (r: bool)
        ensures
            r == self@.fits(kind),
    {
        value_is_of(kind, &self.min) && value_is_of(kind, &self.max)
    }
}

} // verus!
