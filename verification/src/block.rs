//! A loaded block and the forward-only reading of its values.

use crate::error::{Error, FormatFault};
use crate::field::{field_value, read_field};
use crate::kind::{kind_of_tag, lemma_block_bytes, ValueKind};
use crate::stats::{BlockMeta, BlockStats};
use crate::value::{DB721Type, Value};
use std::sync::Arc;
use vstd::prelude::*;
use vstd::slice::slice_to_vec;

verus! {

/// The bytes of one block together with its statistics.
#[derive(Debug)]
pub struct Block {
    pub(crate) meta: BlockMeta,
    pub(crate) data: Vec<u8>,
}

impl Block {
    /// The bytes of the block.
    pub closed spec fn bytes(self) -> Seq<u8> {
        self.data@
    }

    /// The statistics that came with the block.
    pub closed spec fn stats(self) -> BlockStats {
        self.meta@
    }

    /// A block of the given bytes.
    pub fn new(meta: BlockMeta, data: Vec<u8>) -> (r: Block)
        ensures
            r.bytes() == data@,
            r.stats() == meta@,
    {
        Block { meta, data }
    }

    /// The statistics that came with the block.
    pub fn meta(&self) -> (r: &BlockMeta)
        ensures
            r@ == self.stats(),
    {
        &self.meta
    }

    /// The bytes of the block, borrowed.
    pub fn serialize_ref(&self) -> (r: &[u8])
        ensures
            r@ == self.bytes(),
    {
        self.data.as_slice()
    }

    /// The bytes of the block, copied.
    pub fn serialize_clone(&self) -> (r: Vec<u8>)
        ensures
            r@ == self.bytes(),
    {
        slice_to_vec(self.data.as_slice())
    }
}

/// The bytes of the value of index `i` in a block of the given kind.
pub open spec fn field_at(kind: ValueKind, data: Seq<u8>, i: int) -> Seq<u8> {
    data.subrange(i * kind.spec_width(), (i + 1) * kind.spec_width())
}

/// Whether every one of the first `count` fields holds a value.
pub open spec fn block_decodes(kind: ValueKind, data: Seq<u8>, count: int) -> bool {
    forall|i: int| 0 <= i < count ==> (#[trigger] field_value(kind, field_at(kind, data, i))) is Some
}

/// The values of the fields from index `from` up to `count`, in their order.
pub open spec fn values_from(kind: ValueKind, data: Seq<u8>, from: int, count: int) -> Seq<Value>
    decreases count - from,
{
    if from >= count {
        Seq::empty()
    } else {
        seq![field_value(kind, field_at(kind, data, from))->Some_0] + values_from(
            kind,
            data,
            from + 1,
            count,
        )
    }
}

/// Where a reading of a block stands: over which bytes, of which kind, how
/// many values there are and how many of them have been given.
pub ghost struct BlockCursor {
    pub kind: ValueKind,
    pub data: Seq<u8>,
    pub count: int,
    pub next: int,
}

impl BlockCursor {
    /// No more values were given than there are.
    pub open spec fn wf(self) -> bool {
        &&& 0 <= self.next <= self.count <= i32::MAX
        &&& self.data.len() <= u64::MAX
    }

    /// Where the value that comes next ends within the block.
    pub open spec fn field_end(self) -> int {
        (self.next + 1) * self.kind.spec_width()
    }

    /// Whether every value has been given.
    pub open spec fn done(self) -> bool {
        self.next >= self.count
    }

    /// The bytes of the value that comes next.
    pub open spec fn field(self) -> Seq<u8> {
        field_at(self.kind, self.data, self.next)
    }

    /// The cursor after one more value.
    pub open spec fn advanced(self) -> BlockCursor {
        BlockCursor { next: self.next + 1, ..self }
    }

    /// The values still to come.
    pub open spec fn remaining(self) -> Seq<Value> {
        values_from(self.kind, self.data, self.next, self.count)
    }
}

/// Forward-only reading of the values of one block.
#[derive(Debug)]
pub struct BlockIterator {
    pub(crate) block: Arc<Block>,
    pub(crate) kind: ValueKind,
    pub(crate) next_value_idx: i32,
    pub(crate) block_meta: BlockMeta,
}

impl View for BlockIterator {
    type V = BlockCursor;

    closed spec fn view(&self) -> BlockCursor {
        BlockCursor {
            kind: self.kind,
            data: self.block.data@,
            count: self.block_meta@.count,
            next: self.next_value_idx as int,
        }
    }
}

/// The step that a reading takes: nothing once every value was given; else
/// the value of the field that comes next, unless the bytes of the block end
/// before that field does, or the field holds no value.
pub open spec fn cursor_step(c: BlockCursor) -> Result<Option<Value>, Error> {
    if c.done() {
        Ok(None)
    } else if c.field_end() > c.data.len() {
        Err(Error::Io { expected: c.field_end() as u64, found: c.data.len() as u64 })
    } else {
        match field_value(c.kind, c.field()) {
            Some(v) => Ok(Some(v)),
            None => Err(Error::Encoding { value: c.next as i32 }),
        }
    }
}

/// What a result of values says once each value is taken by its view.
pub open spec fn step_view(r: Result<Option<DB721Type>, Error>) -> Result<Option<Value>, Error> {
    match r {
        Ok(Some(v)) => Ok(Some(v@)),
        Ok(None) => Ok(None),
        Err(e) => Err(e),
    }
}

impl BlockIterator {
    #[verifier::type_invariant]
    pub(crate) open spec fn inv(self) -> bool {
        &&& 0 <= self.next_value_idx <= self.block_meta@.count <= i32::MAX
        &&& self.block.data@.len() <= usize::MAX
    }

    /// A reading of `block` from its first value on, as values of the type
    /// that `value_type` names, `meta` saying how many there are. Only a
    /// type that is none of the three is refused; bytes that do not reach
    /// for a value fail the reading where it comes to them.
    pub fn new(block: Arc<Block>, value_type: String, meta: BlockMeta) -> (r: Result<
        BlockIterator,
        Error,
    >)
        ensures
            match kind_of_tag(value_type@) {
                Some(kind) => r is Ok && r->Ok_0@ == (BlockCursor {
                    kind,
                    data: block.bytes(),
                    count: meta@.count,
                    next: 0,
                }) && r->Ok_0@.wf(),
                None => r == Err::<BlockIterator, Error>(
                    Error::Format(FormatFault::ValueType(value_type)),
                ),
            },
    {
        match ValueKind::parse(value_type.as_str()) {
            Some(kind) => Ok(BlockIterator::of_kind(block, kind, meta)),
            None => Err(Error::Format(FormatFault::ValueType(value_type))),
        }
    }

    /// As [`BlockIterator::new`], for a kind already read.
    pub fn of_kind(block: Arc<Block>, kind: ValueKind, meta: BlockMeta) -> (r: BlockIterator)
        ensures
            r@ == (BlockCursor { kind, data: block.bytes(), count: meta@.count, next: 0 }),
            r@.wf(),
    {
        // Reading the count and the length tells that they are an `i32` and a `usize`.
        let _ = meta.value_num();
        let _ = block.data.len();
        BlockIterator { block, kind, next_value_idx: 0, block_meta: meta }
    }

    /// What [`BlockIterator::next`] would give, the reading left where it is.
    pub fn peek(&self) -> (r: Result<Option<DB721Type>, Error>)
        ensures
            self@.wf(),
            step_view(r) == cursor_step(self@),
    {
        proof {
            use_type_invariant(self);
        }
        let count = self.block_meta.value_num();
        if self.next_value_idx >= count {
            return Ok(None);
        }
        let width = self.kind.width();
        let bytes = self.block.data.as_slice();
        let found = bytes.len() as u64;
        proof {
            lemma_block_bytes(self.kind, self.next_value_idx as int);
            lemma_block_bytes(self.kind, self.next_value_idx + 1);
            assert((self.next_value_idx + 1) * width == self.next_value_idx * width + width)
                by (nonlinear_arith);
        }
        let start = self.next_value_idx as u64 * width;
        let end = start + width;
        if end > found {
            return Err(Error::Io { expected: end, found });
        }
        let field = &bytes[start as usize..end as usize];
        match read_field(self.kind, field) {
            Some(v) => Ok(Some(v)),
            None => Err(Error::Encoding { value: self.next_value_idx }),
        }
    }

    /// Moves the reading past the value that comes next.
    pub(crate) fn advance(&mut self)
        requires
            !old(self)@.done(),
        ensures
            final(self)@ == old(self)@.advanced(),
            final(self)@.wf(),
        no_unwind
    {
        proof {
            use_type_invariant(&*self);
        }
        self.next_value_idx = self.next_value_idx + 1;
    }

    /// The next value of the block, or nothing once all were given. A field
    /// that the bytes do not reach fails, and so does a string field that is
    /// not valid UTF-8; the reading then stays before that field.
    pub fn next(&mut self) -> (r: Result<Option<DB721Type>, Error>)
        ensures
            step_view(r) == cursor_step(old(self)@),
            r matches Ok(Some(_)) ==> final(self)@ == old(self)@.advanced(),
            !(r matches Ok(Some(_))) ==> final(self)@ == old(self)@,
            final(self)@.wf(),
    {
        proof {
            use_type_invariant(&*self);
        }
        let r = self.peek();
        if let Ok(Some(_)) = &r {
            self.advance();
        }
        r
    }
}

} // verus!
