//! The catalog entry of one column: its type, where it starts, and the
//! statistics of its blocks.

use crate::error::{Error, FormatFault, SchemaFault};
use crate::key::{block_index_of, parse_block_index};
use crate::kind::{kind_of_tag, lemma_block_bytes, ValueKind};
use crate::stats::{BlockMeta, BlockStats};
use std::collections::HashMap;
use vstd::prelude::*;

verus! {

broadcast use vstd::std_specs::hash::group_hash_axioms;

/// The catalog entry of one column.
#[derive(Debug)]
pub struct ColumnMeta {
    pub(crate) kind: ValueKind,
    pub(crate) start_offset: i32,
    pub(crate) num_blocks: i32,
    pub(crate) block_meta: HashMap<i32, BlockMeta>,
    pub(crate) other_stats: Vec<(String, BlockMeta)>,
}

/// What a [`ColumnMeta`] says. `blocks` maps a block's index to its
/// statistics; an index may lack an entry. `others` are the statistics that
/// the catalog lists under keys that are no index, in their order.
pub ghost struct ColumnView {
    pub kind: ValueKind,
    pub start_offset: int,
    pub num_blocks: int,
    pub blocks: Map<int, BlockStats>,
    pub others: Seq<(Seq<char>, BlockStats)>,
}

impl ColumnView {
    /// A column starts at an offset within the file, has at least one block,
    /// and the statistics it holds are of its own type.
    pub open spec fn wf(self) -> bool {
        &&& 0 <= self.start_offset <= i32::MAX
        &&& 1 <= self.num_blocks <= i32::MAX
        &&& forall|k: int| #[trigger]
            self.blocks.contains_key(k) ==> self.blocks[k].wf() && self.blocks[k].count <= i32::MAX
                && self.blocks[k].fits(self.kind)
    }

    /// The number of values in block `k`; none where the catalog lacks it.
    pub open spec fn count(self, k: int) -> int {
        if self.blocks.contains_key(k) {
            self.blocks[k].count
        } else {
            0
        }
    }

    /// The number of bytes that block `k` takes in the file.
    pub open spec fn block_len(self, k: int) -> int {
        self.kind.spec_width() * self.count(k)
    }

    /// Whether the catalog has statistics for every block before `index`.
    pub open spec fn has_blocks_before(self, index: int) -> bool {
        forall|j: int| 0 <= j < index ==> #[trigger] self.blocks.contains_key(j)
    }

    /// The file offset at which block `index` starts: the column's start and
    /// then the bytes of every block before it.
    pub open spec fn offset_of_block(self, index: int) -> int
        decreases index,
    {
        if index <= 0 {
            self.start_offset
        } else {
            self.offset_of_block(index - 1) + self.block_len(index - 1)
        }
    }

    /// The number of values in the blocks before `index`.
    pub open spec fn rows_before(self, index: int) -> int
        decreases index,
    {
        if index <= 0 {
            0
        } else {
            self.rows_before(index - 1) + self.count(index - 1)
        }
    }

    /// The number of values in the column.
    pub open spec fn total_rows(self) -> int {
        self.rows_before(self.num_blocks)
    }
}

/// The map that a list of entries spells: an entry counts under the index
/// that its key names, and a later entry replaces an earlier one of the same
/// index.
pub open spec fn blocks_of(entries: Seq<(String, BlockMeta)>) -> Map<int, BlockStats>
    decreases entries.len(),
{
    if entries.len() == 0 {
        Map::empty()
    } else {
        match block_index_of(entries.last().0@) {
            Some(index) => blocks_of(entries.drop_last()).insert(index, entries.last().1@),
            None => blocks_of(entries.drop_last()),
        }
    }
}

/// The entries of a list whose key names no index, in their order.
pub open spec fn others_of(entries: Seq<(String, BlockMeta)>) -> Seq<(Seq<char>, BlockStats)>
    decreases entries.len(),
{
    if entries.len() == 0 {
        Seq::empty()
    } else {
        match block_index_of(entries.last().0@) {
            Some(_) => others_of(entries.drop_last()),
            None => others_of(entries.drop_last()).push((entries.last().0@, entries.last().1@)),
        }
    }
}

/// Entries by their views.
pub open spec fn entries_view(entries: Seq<(String, BlockMeta)>) -> Seq<(Seq<char>, BlockStats)> {
    Seq::new(entries.len(), |i: int| (entries[i].0@, entries[i].1@))
}

/// Whether the statistics of every entry that names a block are of the
/// kind's variant.
pub open spec fn entries_fit(kind: ValueKind, entries: Seq<(String, BlockMeta)>) -> bool {
    forall|i: int|
        0 <= i < entries.len() && block_index_of((#[trigger] entries[i]).0@) is Some
            ==> entries[i].1@.fits(kind)
}

/// The error, if any, with which a column of these parts is refused.
pub open spec fn column_fault(
    tag: String,
    start_offset: i32,
    num_blocks: i32,
    entries: Seq<(String, BlockMeta)>,
) -> Option<FormatFault> {
    if kind_of_tag(tag@) is None {
        Some(FormatFault::ValueType(tag))
    } else if start_offset < 0 {
        Some(FormatFault::StartOffset)
    } else if num_blocks < 1 {
        Some(FormatFault::BlockCount)
    } else if !entries_fit(kind_of_tag(tag@)->Some_0, entries) {
        Some(FormatFault::Statistics)
    } else {
        None
    }
}

impl View for ColumnMeta {
    type V = ColumnView;

    closed spec fn view(&self) -> ColumnView {
        ColumnView {
            kind: self.kind,
            start_offset: self.start_offset as int,
            num_blocks: self.num_blocks as int,
            blocks: Map::new(
                |k: int| i32::MIN <= k <= i32::MAX && self.block_meta@.contains_key(k as i32),
                |k: int| self.block_meta@[k as i32]@,
            ),
            others: entries_view(self.other_stats@),
        }
    }
}

impl Clone for ColumnMeta {
    fn clone(&self) -> (r: Self)
        ensures
            r@ == self@,
    {
        proof {
            use_type_invariant(self);
        }
        let mut other_stats: Vec<(String, BlockMeta)> = Vec::new();
        let mut i: usize = 0;
        while i < self.other_stats.len()
            invariant
                i <= self.other_stats.len(),
                other_stats@ == self.other_stats@.subrange(0, i as int),
            decreases self.other_stats.len() - i,
        {
            let entry = (self.other_stats[i].0.clone(), self.other_stats[i].1.clone());
            other_stats.push(entry);
            assert(other_stats@ == self.other_stats@.subrange(0, i + 1));
            i = i + 1;
        }
        assert(other_stats@ == self.other_stats@);
        ColumnMeta {
            kind: self.kind,
            start_offset: self.start_offset,
            num_blocks: self.num_blocks,
            block_meta: self.block_meta.clone(),
            other_stats,
        }
    }
}

impl ColumnMeta {
    #[verifier::type_invariant]
    pub(crate) closed spec fn inv(self) -> bool {
        self@.wf()
    }

    /// A column of the type that `value_type` names, whose first block
    /// starts at `start_offset` and which has `num_blocks` blocks, with the
    /// statistics that the catalog lists, each under its key. An entry
    /// counts for the block whose index its key spells; an entry under any
    /// other key is kept aside. An entry need not exist for every block: a
    /// scan reports the one it misses.
    pub fn new(
        value_type: String,
        start_offset: i32,
        num_blocks: i32,
        block_stats: Vec<(String, BlockMeta)>,
    ) -> (r: Result<ColumnMeta, Error>)
        ensures
            match column_fault(value_type, start_offset, num_blocks, block_stats@) {
                Some(fault) => r == Err::<ColumnMeta, Error>(Error::Format(fault)),
                None => r is Ok && r->Ok_0@ == (ColumnView {
                    kind: kind_of_tag(value_type@)->Some_0,
                    start_offset: start_offset as int,
                    num_blocks: num_blocks as int,
                    blocks: blocks_of(block_stats@),
                    others: others_of(block_stats@),
                }),
            },
            r is Ok ==> r->Ok_0@.wf(),
    {
        let kind = match ValueKind::parse(value_type.as_str()) {
            Some(kind) => kind,
            None => {
                return Err(Error::Format(FormatFault::ValueType(value_type)));
            },
        };
        if start_offset < 0 {
            return Err(Error::Format(FormatFault::StartOffset));
        }
        if num_blocks < 1 {
            return Err(Error::Format(FormatFault::BlockCount));
        }
        let mut block_meta: HashMap<i32, BlockMeta> = HashMap::new();
        let mut other_stats: Vec<(String, BlockMeta)> = Vec::new();
        let mut done: usize = 0;
        while done < block_stats.len()
            invariant
                done <= block_stats.len(),
                kind_of_tag(value_type@) == Some(kind),
                start_offset >= 0,
                num_blocks >= 1,
                entries_fit(kind, block_stats@.subrange(0, done as int)),
                entries_view(other_stats@) == others_of(block_stats@.subrange(0, done as int)),
                forall|k: int|
                    i32::MIN <= k <= i32::MAX ==> (block_meta@.contains_key(k as i32)
                        <==> #[trigger] blocks_of(
                        block_stats@.subrange(0, done as int),
                    ).contains_key(k)),
                forall|k: int| #[trigger]
                    blocks_of(block_stats@.subrange(0, done as int)).contains_key(k) ==> {
                        &&& i32::MIN <= k <= i32::MAX
                        &&& block_meta@[k as i32]@ == blocks_of(
                            block_stats@.subrange(0, done as int),
                        )[k]
                        &&& block_meta@[k as i32]@.wf()
                        &&& block_meta@[k as i32]@.count <= i32::MAX
                        &&& block_meta@[k as i32]@.fits(kind)
                    },
            decreases block_stats.len() - done,
        {
            let meta = block_stats[done].1.clone();
            // Reading the count tells that it is one: not negative, and an `i32`.
            let _ = meta.value_num();
            let ghost prev = block_stats@.subrange(0, done as int);
            let ghost next = block_stats@.subrange(0, done + 1);
            proof {
                assert(next.drop_last() == prev);
                assert(next.last() == block_stats@[done as int]);
            }
            match parse_block_index(block_stats[done].0.as_str()) {
                Some(index) => {
                    if !meta.fits(kind) {
                        assert(!(block_stats@[done as int]).1@.fits(kind));
                        return Err(Error::Format(FormatFault::Statistics));
                    }
                    let ghost stats = meta@;
                    block_meta.insert(index, meta);
                    proof {
                        assert(blocks_of(next) == blocks_of(prev).insert(index as int, stats));
                        assert forall|k: int| i32::MIN <= k <= i32::MAX implies (
                        block_meta@.contains_key(k as i32) <==> #[trigger] blocks_of(
                            next,
                        ).contains_key(k)) by {
                            if k != index {
                                assert(blocks_of(prev).contains_key(k) == blocks_of(
                                    next,
                                ).contains_key(k));
                            }
                        }
                        assert forall|k: int| #[trigger]
                            blocks_of(next).contains_key(k) implies {
                            &&& i32::MIN <= k <= i32::MAX
                            &&& block_meta@[k as i32]@ == blocks_of(next)[k]
                            &&& block_meta@[k as i32]@.wf()
                            &&& block_meta@[k as i32]@.count <= i32::MAX
                            &&& block_meta@[k as i32]@.fits(kind)
                        } by {
                            if k != index {
                                assert(blocks_of(prev).contains_key(k));
                            }
                        }
                    }
                },
                None => {
                    let key = block_stats[done].0.clone();
                    let ghost held = other_stats@;
                    other_stats.push((key, meta));
                    proof {
                        assert(blocks_of(next) == blocks_of(prev));
                        assert(entries_view(other_stats@) =~= entries_view(held).push(
                            (block_stats@[done as int].0@, block_stats@[done as int].1@),
                        ));
                    }
                },
            }
            proof {
                assert forall|i: int|
                    0 <= i < next.len() && block_index_of((#[trigger] next[i]).0@)
                        is Some implies next[i].1@.fits(kind) by {
                    if i < done {
                        assert(prev[i] == next[i]);
                    }
                }
            }
            done = done + 1;
        }
        assert(block_stats@.subrange(0, done as int) == block_stats@);
        proof {
            let view = Map::new(
                |k: int| i32::MIN <= k <= i32::MAX && block_meta@.contains_key(k as i32),
                |k: int| block_meta@[k as i32]@,
            );
            let spelled = blocks_of(block_stats@);
            assert forall|k: int| view.contains_key(k) == spelled.contains_key(k) by {
                if i32::MIN <= k <= i32::MAX {
                    assert(block_meta@.contains_key(k as i32) <==> spelled.contains_key(k));
                } else if spelled.contains_key(k) {
                    assert(false);
                }
            }
            assert forall|k: int| view.contains_key(k) implies view[k] == spelled[k] by {
                assert(spelled.contains_key(k));
            }
            assert(view =~= spelled);
        }
        Ok(ColumnMeta { kind, start_offset, num_blocks, block_meta, other_stats })
    }

    /// The statistics that the catalog lists under keys that are no index.
    pub fn other_stats(&self) -> (r: &Vec<(String, BlockMeta)>)
        ensures
            entries_view(r@) == self@.others,
    {
        &self.other_stats
    }

    /// The declared type of the column's values.
    pub fn kind(&self) -> (r: ValueKind)
        ensures
            r == self@.kind,
            self@.wf(),
    {
        proof {
            use_type_invariant(self);
        }
        self.kind
    }

    /// The file offset at which the column's first block starts.
    pub fn start_offset(&self) -> (r: i32)
        ensures
            r == self@.start_offset,
    {
        self.start_offset
    }

    /// The number of blocks of the column.
    pub fn num_blocks(&self) -> (r: i32)
        ensures
            r == self@.num_blocks,
    {
        self.num_blocks
    }

    /// The statistics of block `index`, where the catalog has them.
    pub fn block(&self, index: i32) -> (r: Option<&BlockMeta>)
        ensures
            r is Some <==> self@.blocks.contains_key(index as int),
            r matches Some(meta) ==> meta@ == self@.blocks[index as int],
    {
        self.block_meta.get(&index)
    }

    /// The number of bytes that block `index` takes in the file; none where
    /// the catalog lacks the block.
    pub fn block_len(&self, index: i32) -> (r: Option<u64>)
        ensures
            r is Some <==> self@.blocks.contains_key(index as int),
            r matches Some(len) ==> len == self@.block_len(index as int),
    {
        proof {
            use_type_invariant(self);
        }
        match self.block_meta.get(&index) {
            Some(meta) => {
                let count = meta.value_num() as u64;
                let width = self.kind.width();
                proof {
                    lemma_block_bytes(self.kind, count as int);
                }
                Some(width * count)
            },
            None => None,
        }
    }

    /// The file offset at which block `block_idx` starts: the start of the
    /// column, then the bytes of every block before `block_idx`. Fails on
    /// the first of those blocks that the catalog lacks, and where the
    /// offset is more than 64 bits hold.
    pub fn get_offset_of_block(&self, block_idx: i32) -> (r: Result<u64, Error>)
        ensures
            match r {
                Ok(offset) => self@.has_blocks_before(block_idx as int) && offset
                    == self@.offset_of_block(block_idx as int),
                Err(Error::SchemaInconsistency(SchemaFault::MissingBlock(j))) => 0 <= j < block_idx
                    && !self@.blocks.contains_key(j as int) && self@.has_blocks_before(j as int),
                Err(Error::SchemaInconsistency(SchemaFault::OffsetRange)) => self@.has_blocks_before(
                    block_idx as int,
                ) && self@.offset_of_block(block_idx as int) > u64::MAX,
                Err(_) => false,
            },
    {
        proof {
            use_type_invariant(self);
        }
        let mut offset: u64 = self.start_offset as u64;
        let mut beyond = false;
        let mut i: i32 = 0;
        while i < block_idx
            invariant
                0 <= i,
                block_idx >= 0 ==> i <= block_idx,
                block_idx < 0 ==> i == 0,
                self@.wf(),
                self@.has_blocks_before(i as int),
                !beyond ==> offset == self@.offset_of_block(i as int),
                beyond ==> self@.offset_of_block(i as int) > u64::MAX,
            decreases block_idx - i,
        {
            let len = match self.block_len(i) {
                Some(len) => len,
                None => { return Err(Error::SchemaInconsistency(SchemaFault::MissingBlock(i))); },
            };
            assert(self@.offset_of_block(i + 1) == self@.offset_of_block(i as int)
                + self@.block_len(i as int));
            proof {
                lemma_block_bytes(self@.kind, self@.count(i as int));
            }
            if !beyond {
                if len > u64::MAX - offset {
                    beyond = true;
                } else {
                    offset = offset + len;
                }
            }
            i = i + 1;
        }
        assert(self@.offset_of_block(block_idx as int) == self@.offset_of_block(i as int));
        if beyond {
            Err(Error::SchemaInconsistency(SchemaFault::OffsetRange))
        } else {
            Ok(offset)
        }
    }

    /// The number of values in the column: the sum of the counts of its
    /// blocks, those that the catalog lacks counting as empty.
    pub fn total_rows(&self) -> (r: u64)
        ensures
            r == self@.total_rows(),
    {
        proof {
            use_type_invariant(self);
        }
        let mut rows: u64 = 0;
        let mut i: i32 = 0;
        while i < self.num_blocks
            invariant
                0 <= i <= self.num_blocks,
                self.num_blocks == self@.num_blocks,
                self@.wf(),
                rows == self@.rows_before(i as int),
                rows <= i * 0x7fff_ffff,
            decreases self.num_blocks - i,
        {
            let count: u64 = match self.block(i) {
                Some(meta) => meta.value_num() as u64,
                None => 0,
            };
            assert(self@.rows_before(i + 1) == self@.rows_before(i as int) + self@.count(i as int));
            assert(i * 0x7fff_ffff + 0x7fff_ffff == (i + 1) * 0x7fff_ffff) by (nonlinear_arith);
            assert((i + 1) * 0x7fff_ffff <= 0x7fff_ffff * 0x7fff_ffff) by (nonlinear_arith)
                requires
                    i + 1 <= 0x7fff_ffff,
            ;
            rows = rows + count;
            i = i + 1;
        }
        rows
    }
}

} // verus!
