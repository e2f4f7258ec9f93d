//! The scan of one column: block after block, skipping the blocks that the
//! bounds rule out, and value after value within a block.
//!
//! The scan reads no file. Where it needs the bytes of a block it says which,
//! as a [`BlockRequest`]; its caller reads them and hands them over with
//! [`ColumnIterator::supply`].

use crate::block::{cursor_step, Block, BlockCursor, BlockIterator};
use crate::column::{ColumnMeta, ColumnView};
use crate::error::{Error, ScanError, SchemaFault};
use crate::kind::{lemma_block_bytes, ValueKind};
use crate::order::{exceeds, precedes};
use crate::stats::{value_fits, value_is_of, BlockMeta, BlockStats};
use crate::value::{value_above, value_below, DB721Type, Value};
use std::path::PathBuf;
use std::sync::Arc;
use vstd::prelude::*;

verus! {

/// `std::path::PathBuf`: the path of a table's file, carried along unread.
#[verifier::external_type_specification]
#[verifier::external_body]
pub struct ExPathBuf(PathBuf);

/// The bytes that a scan asks for: those of block `block`, `len` of them
/// from file offset `offset` on.
#[derive(Debug, Clone, Copy, PartialEq, Eq)]
pub struct BlockRequest {
    pub block: i32,
    pub offset: u64,
    pub len: u64,
}

/// What one step of a scan gives.
#[derive(Debug, PartialEq)]
pub enum Scan {
    /// The next value of the column.
    Value(DB721Type),
    /// No value yet: the scan waits for these bytes.
    Fetch(BlockRequest),
    /// The column has no further value.
    End,
}

/// A [`Scan`] with its value taken by its view.
pub ghost enum ScanOut {
    Value(Value),
    Fetch(BlockRequest),
    End,
}

/// Where a scan stands.
pub ghost enum Phase {
    /// The bytes of a block were asked for and have not come.
    Waiting(BlockRequest),
    /// Block `block`, which starts at file offset `start`, is loaded and
    /// read through `cursor`.
    Active { block: int, start: int, cursor: BlockCursor },
    /// Every block was read or skipped.
    Exhausted,
}

/// A scan as a value: the name of the column and its catalog entry, the
/// inclusive range that the caller needs (either end may be open), and
/// where the scan stands.
pub ghost struct ScanView {
    pub name: String,
    pub column: ColumnView,
    pub lower: Option<Value>,
    pub upper: Option<Value>,
    pub phase: Phase,
}

/// Whether statistics show that a block holds nothing within the bounds: the
/// lower bound lies above its greatest value, or the upper bound below its
/// least.
pub open spec fn excluded(lower: Option<Value>, upper: Option<Value>, stats: BlockStats) -> bool {
    ||| lower matches Some(l) && value_above(l, stats.max)
    ||| upper matches Some(u) && value_below(u, stats.min)
}

/// Whether the bounds that are set are of the variant that the kind asks for.
pub open spec fn bounds_fit(kind: ValueKind, lower: Option<Value>, upper: Option<Value>) -> bool {
    &&& lower matches Some(l) ==> value_fits(kind, l)
    &&& upper matches Some(u) ==> value_fits(kind, u)
}

/// The request for block `k` of a column.
pub open spec fn request_of(column: ColumnView, k: int) -> BlockRequest {
    BlockRequest {
        block: k as i32,
        offset: column.offset_of_block(k) as u64,
        len: column.block_len(k) as u64,
    }
}

impl ScanView {
    /// Whether block `k` has statistics and they rule it out.
    pub open spec fn excludes(self, k: int) -> bool {
        self.column.blocks.contains_key(k) && excluded(self.lower, self.upper, self.column.blocks[k])
    }

    /// The first block from `from` on that is not ruled out; the number of
    /// blocks if there is none.
    pub open spec fn seek(self, from: int) -> int
        decreases self.column.num_blocks - from,
    {
        if from >= self.column.num_blocks {
            self.column.num_blocks
        } else if self.excludes(from) {
            self.seek(from + 1)
        } else {
            from
        }
    }

    /// The scan with another phase.
    pub open spec fn at(self, phase: Phase) -> ScanView {
        ScanView { phase, ..self }
    }

    /// The index of the block that the scan is at: the one it waits for or
    /// reads, and the number of blocks once it is exhausted.
    pub open spec fn block(self) -> int {
        match self.phase {
            Phase::Waiting(request) => request.block as int,
            Phase::Active { block, start, cursor } => block,
            Phase::Exhausted => self.column.num_blocks,
        }
    }

    /// The file offset of the block that the scan is at; 0 once it is
    /// exhausted.
    pub open spec fn offset(self) -> int {
        match self.phase {
            Phase::Waiting(request) => request.offset as int,
            Phase::Active { block, start, cursor } => start,
            Phase::Exhausted => 0,
        }
    }

    /// A failure of this scan: the cause, with the column and the place at
    /// which the scan stands.
    pub open spec fn fails(self, cause: Error) -> ScanError {
        ScanError {
            column: self.name,
            block: self.block() as i32,
            offset: self.offset() as u64,
            cause,
        }
    }

    /// What a scan does once the blocks before `from` are done: it ends if
    /// no block from there on is kept, and else asks for the first that is,
    /// unless the catalog lacks that block or its offset is out of range.
    pub open spec fn turn(self, from: int) -> (ScanView, Result<ScanOut, ScanError>) {
        let k = self.seek(from);
        if k >= self.column.num_blocks {
            (self.at(Phase::Exhausted), Ok(ScanOut::End))
        } else if !self.column.blocks.contains_key(k) {
            (
                self,
                Err(self.fails(Error::SchemaInconsistency(SchemaFault::MissingBlock(k as i32)))),
            )
        } else if self.column.offset_of_block(k) > u64::MAX {
            (self, Err(self.fails(Error::SchemaInconsistency(SchemaFault::OffsetRange))))
        } else {
            (
                self.at(Phase::Waiting(request_of(self.column, k))),
                Ok(ScanOut::Fetch(request_of(self.column, k))),
            )
        }
    }

    /// One step: nothing more once exhausted; the same request again while
    /// it is not answered; else the next value of the loaded block, and
    /// after its last value the turn to the following blocks.
    pub open spec fn step(self) -> (ScanView, Result<ScanOut, ScanError>) {
        match self.phase {
            Phase::Exhausted => (self, Ok(ScanOut::End)),
            Phase::Waiting(request) => (self, Ok(ScanOut::Fetch(request))),
            Phase::Active { block, start, cursor } => match cursor_step(cursor) {
                Ok(Some(v)) => (
                    self.at(Phase::Active { block, start, cursor: cursor.advanced() }),
                    Ok(ScanOut::Value(v)),
                ),
                Ok(None) => self.turn(block + 1),
                Err(e) => (self, Err(self.fails(e))),
            },
        }
    }

    /// The arrival of `data`: the awaited block is loaded if `data` has its
    /// length; any other delivery fails and changes nothing.
    pub open spec fn supplied(self, data: Seq<u8>) -> (ScanView, Result<(), ScanError>) {
        match self.phase {
            Phase::Waiting(request) => if data.len() == request.len {
                (
                    self.at(
                        Phase::Active {
                            block: request.block as int,
                            start: request.offset as int,
                            cursor: BlockCursor {
                                kind: self.column.kind,
                                data,
                                count: self.column.count(request.block as int),
                                next: 0,
                            },
                        },
                    ),
                    Ok(()),
                )
            } else {
                (
                    self,
                    Err(self.fails(Error::Io { expected: request.len, found: data.len() as u64 })),
                )
            },
            _ => (self, Err(self.fails(Error::Io { expected: 0, found: data.len() as u64 }))),
        }
    }

    /// What holds of every scan.
    pub open spec fn wf(self) -> bool {
        &&& self.column.wf()
        &&& bounds_fit(self.column.kind, self.lower, self.upper)
        &&& match self.phase {
            Phase::Waiting(request) => {
                &&& 0 <= request.block < self.column.num_blocks
                &&& self.column.has_blocks_before(request.block + 1)
                &&& 0 <= self.column.offset_of_block(request.block as int) <= u64::MAX
                &&& request == request_of(self.column, request.block as int)
            },
            Phase::Active { block, start, cursor } => {
                &&& 0 <= block < self.column.num_blocks
                &&& self.column.has_blocks_before(block + 1)
                &&& start == self.column.offset_of_block(block)
                &&& start <= u64::MAX
                &&& cursor.wf()
                &&& cursor.kind == self.column.kind
            },
            Phase::Exhausted => true,
        }
    }
}

/// How a scan of a column starts: waiting for block 0, whatever the bounds.
/// It cannot start on a column without statistics for block 0, nor with a
/// bound of another type than the column's.
pub open spec fn scan_start(
    name: String,
    column: ColumnView,
    lower: Option<Value>,
    upper: Option<Value>,
) -> Result<ScanView, ScanError> {
    let place = |cause: Error|
        ScanError { column: name, block: 0, offset: column.start_offset as u64, cause };
    if !column.blocks.contains_key(0) {
        Err(place(Error::SchemaInconsistency(SchemaFault::MissingBlock(0))))
    } else if !bounds_fit(column.kind, lower, upper) {
        Err(place(Error::SchemaInconsistency(SchemaFault::Bound)))
    } else {
        Ok(ScanView { name, column, lower, upper, phase: Phase::Waiting(request_of(column, 0)) })
    }
}

/// A bound by its view.
pub open spec fn bound_view(bound: Option<DB721Type>) -> Option<Value> {
    match bound {
        Some(v) => Some(v@),
        None => None,
    }
}

/// The result of a step by its view.
pub open spec fn scan_view(r: Result<Scan, ScanError>) -> Result<ScanOut, ScanError> {
    match r {
        Ok(Scan::Value(v)) => Ok(ScanOut::Value(v@)),
        Ok(Scan::Fetch(request)) => Ok(ScanOut::Fetch(request)),
        Ok(Scan::End) => Ok(ScanOut::End),
        Err(e) => Err(e),
    }
}

/// The scan of one column.
#[derive(Debug)]
pub struct ColumnIterator {
    next_block_idx: i32,
    now_block_iterator: BlockIterator,
    now_block_offset: u64,
    column_meta: ColumnMeta,
    column_name: String,
    file_path: PathBuf,
    minv: Option<DB721Type>,
    maxv: Option<DB721Type>,
    min_len: Option<i32>,
    max_len: Option<i32>,
    awaited: Option<BlockRequest>,
    is_end: bool,
}

impl View for ColumnIterator {
    type V = ScanView;

    closed spec fn view(&self) -> ScanView {
        ScanView {
            name: self.column_name,
            column: self.column_meta@,
            lower: bound_view(self.minv),
            upper: bound_view(self.maxv),
            phase: if self.is_end {
                Phase::Exhausted
            } else if self.awaited is Some {
                Phase::Waiting(self.awaited->Some_0)
            } else {
                Phase::Active {
                    block: self.next_block_idx - 1,
                    start: self.now_block_offset as int,
                    cursor: self.now_block_iterator@,
                }
            },
        }
    }
}

impl ColumnIterator {
    #[verifier::type_invariant]
    closed spec fn inv(self) -> bool {
        self@.wf()
    }

    /// The path of the table's file, as a value.
    pub closed spec fn path(self) -> PathBuf {
        self.file_path
    }

    /// The least and the greatest length of the strings asked for, where
    /// they were set. They rule out no block.
    pub closed spec fn lengths(self) -> (Option<i32>, Option<i32>) {
        (self.min_len, self.max_len)
    }

    /// Whether two scans are of the same file, with the same lengths asked
    /// for.
    pub open spec fn same_subject(self, other: ColumnIterator) -> bool {
        &&& self.path() == other.path()
        &&& self.lengths() == other.lengths()
    }

    /// A scan of the column `column_name` of the table at `file_path`, for
    /// the values from `minv` to `maxv`, both included, where they are set.
    /// It starts by waiting for block 0, which it reads whatever the bounds.
    pub fn new(
        column_name: String,
        column_meta: ColumnMeta,
        file_path: PathBuf,
        minv: Option<DB721Type>,
        maxv: Option<DB721Type>,
        min_len: Option<i32>,
        max_len: Option<i32>,
    ) -> (r: Result<ColumnIterator, ScanError>)
        ensures
            match scan_start(column_name, column_meta@, bound_view(minv), bound_view(maxv)) {
                Ok(s) => r is Ok && r->Ok_0@ == s && s.wf(),
                Err(e) => r == Err::<ColumnIterator, ScanError>(e),
            },
            r matches Ok(it) ==> it.path() == file_path && it.lengths() == (min_len, max_len),
    {
        let kind = column_meta.kind();
        let offset = column_meta.start_offset() as u64;
        let len = match column_meta.block_len(0) {
            Some(len) => len,
            None => {
                return Err(
                    ScanError {
                        column: column_name,
                        block: 0,
                        offset,
                        cause: Error::SchemaInconsistency(SchemaFault::MissingBlock(0)),
                    },
                );
            },
        };
        let lower_fits = match &minv {
            Some(l) => value_is_of(kind, l),
            None => true,
        };
        let upper_fits = match &maxv {
            Some(u) => value_is_of(kind, u),
            None => true,
        };
        if !lower_fits || !upper_fits {
            return Err(
                ScanError {
                    column: column_name,
                    block: 0,
                    offset,
                    cause: Error::SchemaInconsistency(SchemaFault::Bound),
                },
            );
        }
        let request = BlockRequest { block: 0, offset, len };
        let nothing = Arc::new(Block::new(BlockMeta::empty(), Vec::new()));
        let now_block_iterator = BlockIterator::of_kind(nothing, kind, BlockMeta::empty());
        Ok(
            ColumnIterator {
                next_block_idx: 1,
                now_block_iterator,
                now_block_offset: offset,
                column_meta,
                column_name,
                file_path,
                minv,
                maxv,
                min_len,
                max_len,
                awaited: Some(request),
                is_end: false,
            },
        )
    }

    /// Whether the scan is exhausted.
    pub fn is_end(&self) -> (r: bool)
        ensures
            r == (self@.phase is Exhausted),
    {
        self.is_end
    }

    fn rules_out(&self, stats: &BlockMeta) -> (r: bool)
        ensures
            r == excluded(self@.lower, self@.upper, stats@),
    {
        let above = match &self.minv {
            Some(l) => exceeds(l, stats.max()),
            None => false,
        };
        let below = match &self.maxv {
            Some(u) => precedes(u, stats.min()),
            None => false,
        };
        above || below
    }

    /// A failure of the scan where it stands.
    fn fails(&self, cause: Error) -> (r: ScanError)
        ensures
            r == self@.fails(cause),
            self@.wf(),
    {
        proof {
            use_type_invariant(self);
        }
        let (block, offset) = if self.is_end {
            (self.column_meta.num_blocks(), 0)
        } else {
            match self.awaited {
                Some(request) => (request.block, request.offset),
                None => (self.next_block_idx - 1, self.now_block_offset),
            }
        };
        ScanError { column: self.column_name.clone(), block, offset, cause }
    }

    /// One step of the scan.
    pub fn next(&mut self) -> (r: Result<Scan, ScanError>)
        ensures
            (final(self)@, scan_view(r)) == old(self)@.step(),
            final(self)@.wf(),
            final(self).same_subject(*old(self)),
    {
        proof {
            use_type_invariant(&*self);
        }
        if self.is_end {
            return Ok(Scan::End);
        }
        if let Some(request) = self.awaited {
            return Ok(Scan::Fetch(request));
        }
        match self.now_block_iterator.peek() {
            Ok(Some(v)) => {
                self.now_block_iterator.advance();
                return Ok(Scan::Value(v));
            },
            Err(e) => {
                return Err(self.fails(e));
            },
            Ok(None) => {},
        }
        let ghost s = self@;
        let from = self.next_block_idx;
        let blocks = self.column_meta.num_blocks();
        let mut k = from;
        let mut stop = false;
        while k < blocks && !stop
            invariant
                *self == *old(self),
                s == self@,
                s.wf(),
                blocks == s.column.num_blocks,
                1 <= from <= k <= blocks,
                s.seek(from as int) == s.seek(k as int),
                s.column.has_blocks_before(k as int),
                stop ==> k < blocks && !s.excludes(k as int),
            decreases blocks - k + if stop { 0int } else { 1int },
        {
            match self.column_meta.block(k) {
                Some(stats) => {
                    if self.rules_out(stats) {
                        k = k + 1;
                    } else {
                        stop = true;
                    }
                },
                None => {
                    stop = true;
                },
            }
        }
        if !stop {
            self.is_end = true;
            return Ok(Scan::End);
        }
        let len = match self.column_meta.block_len(k) {
            Some(len) => len,
            None => {
                return Err(
                    self.fails(Error::SchemaInconsistency(SchemaFault::MissingBlock(k))),
                );
            },
        };
        let offset = match self.column_meta.get_offset_of_block(k) {
            Ok(offset) => offset,
            Err(e) => {
                return Err(self.fails(e));
            },
        };
        let request = BlockRequest { block: k, offset, len };
        self.awaited = Some(request);
        Ok(Scan::Fetch(request))
    }

    /// Hands over the bytes that the scan asked for. They are taken if they
    /// are as many as were asked for; the scan then reads the block from its
    /// first value. Any other delivery fails and leaves the scan as it was.
    pub fn supply(&mut self, data: Vec<u8>) -> (r: Result<(), ScanError>)
        ensures
            (final(self)@, r) == old(self)@.supplied(data@),
            final(self)@.wf(),
            final(self).same_subject(*old(self)),
    {
        proof {
            use_type_invariant(&*self);
        }
        let found = data.len() as u64;
        if self.is_end {
            return Err(self.fails(Error::Io { expected: 0, found }));
        }
        let request = match self.awaited {
            Some(request) => request,
            None => {
                return Err(self.fails(Error::Io { expected: 0, found }));
            },
        };
        if found != request.len {
            return Err(self.fails(Error::Io { expected: request.len, found }));
        }
        let stats = match self.column_meta.block(request.block) {
            Some(stats) => stats,
            None => {
                return Err(
                    self.fails(
                        Error::SchemaInconsistency(SchemaFault::MissingBlock(request.block)),
                    ),
                );
            },
        };
        let kind = self.column_meta.kind();
        let block = Arc::new(Block::new(stats.clone(), data));
        let reading = BlockIterator::of_kind(block, kind, stats.clone());
        proof {
            lemma_block_bytes(kind, self@.column.count(request.block as int));
        }
        self.now_block_iterator = reading;
        self.now_block_offset = request.offset;
        self.next_block_idx = request.block + 1;
        self.awaited = None;
        Ok(())
    }

    /// The name of the column.
    pub fn column_name(&self) -> (r: &String)
        ensures
            *r == self@.name,
    {
        &self.column_name
    }

    /// The path of the table's file.
    pub fn file_path(&self) -> (r: &PathBuf)
        ensures
            *r == self.path(),
    {
        &self.file_path
    }

    /// The least length of the strings asked for, where it was set.
    pub fn min_len(&self) -> (r: Option<i32>)
        ensures
            r == self.lengths().0,
    {
        self.min_len
    }

    /// The greatest length of the strings asked for, where it was set.
    pub fn max_len(&self) -> (r: Option<i32>)
        ensures
            r == self.lengths().1,
    {
        self.max_len
    }

    /// The catalog entry of the column.
    pub fn column_meta(&self) -> (r: &ColumnMeta)
        ensures
            r@ == self@.column,
    {
        &self.column_meta
    }

    /// The index of the block that the scan is at: the one it reads, or the
    /// one it waits for; none once it is exhausted.
    pub fn current_block(&self) -> (r: Option<i32>)
        ensures
            match self@.phase {
                Phase::Exhausted => r is None,
                _ => r is Some && r->Some_0 == self@.block(),
            },
    {
        proof {
            use_type_invariant(self);
        }
        if self.is_end {
            None
        } else {
            match self.awaited {
                Some(request) => Some(request.block),
                None => Some(self.next_block_idx - 1),
            }
        }
    }

    /// The request that the scan waits on, if it waits.
    pub fn awaited(&self) -> (r: Option<BlockRequest>)
        ensures
            match self@.phase {
                Phase::Waiting(request) => r == Some(request),
                _ => r is None,
            },
    {
        if self.is_end {
            None
        } else {
            self.awaited
        }
    }
}

} // verus!
