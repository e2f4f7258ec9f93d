//! What holds of the library as a whole, proved from the definitions that
//! its contracts are written in.

use crate::block::{block_decodes, cursor_step, field_at, values_from};
use crate::column::ColumnView;
use crate::error::{Error, ScanError};
use crate::field::{field_value, lemma_first_nul_is, text_of};
use crate::kind::{lemma_block_bytes, ValueKind};
use crate::scan::{bounds_fit, request_of, scan_start, Phase, ScanOut, ScanView};
use crate::table::{open_fault, DB721Meta, TableView};
use crate::trailer::{stated_size, trailer_fault};
use crate::value::{lex_less, value_above, value_below, Value};
use vstd::prelude::*;
use vstd::utf8::valid_utf8;

verus! {

/// The first block of a column starts where the column starts: at offset 0
/// for a column that starts the file.
pub proof fn lemma_offset_of_first_block(column: ColumnView)
    ensures
        column.offset_of_block(0) == column.start_offset,
        column.start_offset == 0 ==> column.offset_of_block(0) == 0,
{
}

/// A block starts where the block before it ends: at that block's offset
/// plus the width of a value times the number of its values.
pub proof fn lemma_offset_of_next_block(column: ColumnView, i: int)
    requires
        0 <= i,
    ensures
        column.offset_of_block(i + 1) == column.offset_of_block(i) + column.kind.spec_width()
            * column.count(i),
{
}

/// A string field without a NUL is text from its first byte to its last.
pub proof fn lemma_text_without_nul(field: Seq<u8>)
    requires
        forall|j: int| 0 <= j < field.len() ==> field[j] != 0,
    ensures
        text_of(field) == field,
        valid_utf8(field) ==> field_value(ValueKind::Str, field) == Some(Value::Str(field)),
{
    lemma_first_nul_is(field, field.len() as int);
    assert(field.subrange(0, field.len() as int) == field);
}

/// The text of a string field ends before its first NUL, whatever follows.
pub proof fn lemma_text_before_nul(text: Seq<u8>, rest: Seq<u8>)
    requires
        forall|j: int| 0 <= j < text.len() ==> text[j] != 0,
    ensures
        text_of(text + seq![0u8] + rest) == text,
        valid_utf8(text + seq![0u8] + rest) ==> field_value(
            ValueKind::Str,
            text + seq![0u8] + rest,
        ) == Some(Value::Str(text)),
{
    let field = text + seq![0u8] + rest;
    assert forall|j: int| 0 <= j < text.len() implies field[j] != 0 by {
        assert(field[j] == text[j]);
    }
    assert(field[text.len() as int] == 0);
    lemma_first_nul_is(field, text.len() as int);
    assert(field.subrange(0, text.len() as int) == text);
}

/// Of two byte strings that differ, exactly one comes before the other.
proof fn lemma_lex_total(a: Seq<u8>, b: Seq<u8>)
    ensures
        a == b ==> !lex_less(a, b),
        a != b ==> (lex_less(a, b) <==> !lex_less(b, a)),
    decreases a.len(),
{
    if a.len() == 0 || b.len() == 0 {
        if a.len() == 0 && b.len() == 0 {
            assert(a == b);
        }
    } else if a[0] == b[0] {
        lemma_lex_total(a.drop_first(), b.drop_first());
        if a.drop_first() == b.drop_first() {
            assert(a == seq![a[0]] + a.drop_first());
            assert(b == seq![b[0]] + b.drop_first());
        }
    }
}

/// `a` comes before `b` exactly when `b` comes after `a`.
pub proof fn lemma_below_is_above(a: Value, b: Value)
    ensures
        value_below(a, b) <==> value_above(b, a),
{
    match (a, b) {
        (Value::Str(x), Value::Str(y)) => {
            lemma_lex_total(x, y);
            lemma_lex_total(y, x);
        },
        _ => {},
    }
}

/// The bytes of block `k` of a column within a file.
pub open spec fn block_bytes(column: ColumnView, file: Seq<u8>, k: int) -> Seq<u8> {
    file.subrange(column.offset_of_block(k), column.offset_of_block(k) + column.block_len(k))
}

/// The values of block `k` of a column as a file holds them, in their order.
pub open spec fn block_values(column: ColumnView, file: Seq<u8>, k: int) -> Seq<Value> {
    values_from(column.kind, block_bytes(column, file, k), 0, column.count(k))
}

/// The values of the blocks from `from` on that a scan keeps, block after
/// block.
pub open spec fn kept_values(s: ScanView, file: Seq<u8>, from: int) -> Seq<Value>
    decreases s.column.num_blocks - from,
{
    if from >= s.column.num_blocks {
        Seq::empty()
    } else if s.excludes(from) {
        kept_values(s, file, from + 1)
    } else {
        block_values(s.column, file, from) + kept_values(s, file, from + 1)
    }
}

/// The values of all blocks of a column from `from` on, block after block.
pub open spec fn column_values(column: ColumnView, file: Seq<u8>, from: int) -> Seq<Value>
    decreases column.num_blocks - from,
{
    if from >= column.num_blocks {
        Seq::empty()
    } else {
        block_values(column, file, from) + column_values(column, file, from + 1)
    }
}

/// The values that a scan of a file has yet to give: what is left of the
/// loaded block, or all of the awaited one, and then the blocks it keeps.
pub open spec fn pending(s: ScanView, file: Seq<u8>) -> Seq<Value> {
    match s.phase {
        Phase::Exhausted => Seq::empty(),
        Phase::Waiting(request) => block_values(s.column, file, request.block as int)
            + kept_values(s, file, request.block + 1),
        Phase::Active { block, start, cursor } => cursor.remaining() + kept_values(s, file, block + 1),
    }
}

/// Skipped blocks add nothing: what a scan keeps from `from` on is what it
/// keeps from the first block on that it does not rule out.
proof fn lemma_kept_from_seek(s: ScanView, file: Seq<u8>, from: int)
    ensures
        kept_values(s, file, from) == kept_values(s, file, s.seek(from)),
        from <= s.column.num_blocks ==> from <= s.seek(from) <= s.column.num_blocks,
        s.seek(from) < s.column.num_blocks ==> !s.excludes(s.seek(from)),
        forall|j: int| from <= j < s.seek(from) ==> s.excludes(j),
    decreases s.column.num_blocks - from,
{
    if from < s.column.num_blocks && s.excludes(from) {
        lemma_kept_from_seek(s, file, from + 1);
    }
}

/// A step that gives a value gives the first of the pending values and
/// leaves the others pending.
pub proof fn lemma_step_gives_next_value(s: ScanView, file: Seq<u8>)
    requires
        s.wf(),
        s.step().1 matches Ok(ScanOut::Value(_)),
    ensures
        pending(s, file) == seq![s.step().1->Ok_0->Value_0] + pending(s.step().0, file),
{
    let cursor = s.phase->Active_cursor;
    assert(cursor.remaining() == seq![field_value(cursor.kind, cursor.field())->Some_0]
        + cursor.advanced().remaining());
    let t = s.step().0;
    assert(kept_values(t, file, s.phase->Active_block + 1) == kept_values(
        s,
        file,
        s.phase->Active_block + 1,
    )) by {
        lemma_kept_same(s, t, file, s.phase->Active_block + 1);
    }
}

/// What a scan keeps depends on its column and bounds, not on its phase.
proof fn lemma_kept_same(s: ScanView, t: ScanView, file: Seq<u8>, from: int)
    requires
        s.column == t.column,
        s.lower == t.lower,
        s.upper == t.upper,
    ensures
        kept_values(s, file, from) == kept_values(t, file, from),
        s.seek(from) == t.seek(from),
    decreases s.column.num_blocks - from,
{
    if from < s.column.num_blocks {
        lemma_kept_same(s, t, file, from + 1);
    }
}

/// A step that gives no value takes none away: after a request, and at the
/// end, the pending values are what they were.
pub proof fn lemma_step_keeps_pending(s: ScanView, file: Seq<u8>)
    requires
        s.wf(),
        s.step().1 matches Ok(out) && !(out is Value),
    ensures
        pending(s.step().0, file) == pending(s, file),
        s.step().1 == Ok::<ScanOut, ScanError>(ScanOut::End) ==> pending(s, file).len() == 0,
{
    match s.phase {
        Phase::Active { block, start, cursor } => {
            let t = s.step().0;
            let k = s.seek(block + 1);
            lemma_kept_from_seek(s, file, block + 1);
            lemma_kept_same(s, t, file, k);
            lemma_kept_same(s, t, file, k + 1);
            assert(cursor.remaining() == Seq::<Value>::empty());
            if k < s.column.num_blocks {
                assert(request_of(s.column, k).block == k);
            }
        },
        _ => {},
    }
}

/// Bytes that are those of the awaited block are taken, and the values
/// pending after them are those pending before.
pub proof fn lemma_supply_keeps_pending(s: ScanView, file: Seq<u8>, data: Seq<u8>)
    requires
        s.wf(),
        s.phase matches Phase::Waiting(request) && data == block_bytes(
            s.column,
            file,
            request.block as int,
        ) && data.len() == request.len,
    ensures
        s.supplied(data).1 is Ok,
        pending(s.supplied(data).0, file) == pending(s, file),
{
    let request = s.phase->Waiting_0;
    let t = s.supplied(data).0;
    lemma_kept_same(s, t, file, request.block + 1);
}

/// A scan without bounds keeps every block.
proof fn lemma_unbounded_keeps_all(s: ScanView, file: Seq<u8>, from: int)
    requires
        s.lower is None,
        s.upper is None,
    ensures
        kept_values(s, file, from) == column_values(s.column, file, from),
    decreases s.column.num_blocks - from,
{
    if from < s.column.num_blocks {
        lemma_unbounded_keeps_all(s, file, from + 1);
    }
}

/// A block holds as many values as its statistics say.
pub proof fn lemma_values_len(kind: ValueKind, data: Seq<u8>, from: int, count: int)
    requires
        0 <= from <= count,
    ensures
        values_from(kind, data, from, count).len() == count - from,
    decreases count - from,
{
    if from < count {
        lemma_values_len(kind, data, from + 1, count);
    }
}

/// The blocks from `from` on hold the rows that the blocks before do not.
proof fn lemma_column_values_len(column: ColumnView, file: Seq<u8>, from: int)
    requires
        column.wf(),
        0 <= from <= column.num_blocks,
    ensures
        column_values(column, file, from).len() == column.total_rows() - column.rows_before(from),
    decreases column.num_blocks - from,
{
    if from < column.num_blocks {
        lemma_column_values_len(column, file, from + 1);
        lemma_values_len(column.kind, block_bytes(column, file, from), 0, column.count(from));
    }
}

/// A scan without bounds has, at its start, every value of the column
/// pending: as many as the column has rows, block after block and within a
/// block in the order of the bytes.
pub proof fn lemma_unbounded_scan_gives_every_row(name: String, column: ColumnView, file: Seq<u8>)
    requires
        column.wf(),
        scan_start(name, column, None, None) is Ok,
    ensures
        pending(scan_start(name, column, None, None)->Ok_0, file) == column_values(
            column,
            file,
            0,
        ),
        column_values(column, file, 0).len() == column.total_rows(),
{
    let s = scan_start(name, column, None, None)->Ok_0;
    lemma_unbounded_keeps_all(s, file, 1);
    lemma_column_values_len(column, file, 0);
    assert(column.rows_before(0) == 0);
}

/// A scan never asks for a block after the first whose statistics lie
/// wholly below the lower bound or wholly above the upper one.
pub proof fn lemma_pruned_block_is_not_read(s: ScanView, k: int)
    requires
        s.wf(),
        s.phase is Active,
        s.column.blocks.contains_key(k),
        (s.lower matches Some(l) && value_below(s.column.blocks[k].max, l)) || (s.upper matches Some(
            u,
        ) && value_above(s.column.blocks[k].min, u)),
    ensures
        s.step().1 matches Ok(ScanOut::Fetch(request)) ==> request.block != k,
{
    if s.lower is Some {
        lemma_below_is_above(s.column.blocks[k].max, s.lower->Some_0);
    }
    if s.upper is Some {
        lemma_below_is_above(s.upper->Some_0, s.column.blocks[k].min);
    }
    assert(s.excludes(k));
    let block = s.phase->Active_block;
    lemma_kept_from_seek(s, Seq::empty(), block + 1);
}

/// The block that a scan asks for next is the first after the loaded one
/// that the bounds do not rule out, and it is asked for whole.
pub proof fn lemma_next_block_is_first_kept(s: ScanView)
    requires
        s.wf(),
        s.phase is Active,
        s.step().1 matches Ok(ScanOut::Fetch(_)),
    ensures
        ({
            let request = s.step().1->Ok_0->Fetch_0;
            &&& s.phase->Active_block < request.block < s.column.num_blocks
            &&& !s.excludes(request.block as int)
            &&& forall|j: int| s.phase->Active_block < j < request.block ==> s.excludes(j)
            &&& request.offset == s.column.offset_of_block(request.block as int)
            &&& request.len == s.column.kind.spec_width() * s.column.count(request.block as int)
        }),
{
    let block = s.phase->Active_block;
    lemma_kept_from_seek(s, Seq::empty(), block + 1);
    let k = s.seek(block + 1);
    lemma_block_len_bound(s.column, k);
    lemma_offset_grows(s.column, k);
}

/// No block starts before the column does.
proof fn lemma_offset_grows(column: ColumnView, k: int)
    requires
        column.wf(),
    ensures
        column.offset_of_block(k) >= column.start_offset,
    decreases k,
{
    if k > 0 {
        lemma_offset_grows(column, k - 1);
        lemma_block_len_bound(column, k - 1);
    }
}

/// The bytes of a block fit a length of 64 bits.
proof fn lemma_block_len_bound(column: ColumnView, k: int)
    requires
        column.wf(),
    ensures
        0 <= column.block_len(k) <= 32 * 0x7fff_ffff,
{
    lemma_block_bytes(column.kind, column.count(k));
}

/// Every column of a table holds as many values as the table has rows.
pub proof fn lemma_every_column_has_the_rows_of_the_table(
    table: TableView,
    file: Seq<u8>,
    i: int,
)
    requires
        table.wf(),
        0 <= i < table.columns.len(),
    ensures
        column_values(table.columns[i].1, file, 0).len() == table.row_count(),
{
    let column = table.columns[i].1;
    lemma_column_values_len(column, file, 0);
    assert(column.rows_before(0) == 0);
    assert(table.columns[0].1.total_rows() == column.total_rows());
}

/// A step leaves a well-formed scan well formed.
pub proof fn lemma_step_keeps_wf(s: ScanView)
    requires
        s.wf(),
    ensures
        s.step().0.wf(),
{
    match s.phase {
        Phase::Active { block, start, cursor } => {
            if cursor_step(cursor) == Ok::<Option<Value>, Error>(None) {
                lemma_kept_from_seek(s, Seq::empty(), block + 1);
                let k = s.seek(block + 1);
                if k < s.column.num_blocks && s.column.blocks.contains_key(k) {
                    lemma_block_len_bound(s.column, k);
                    lemma_offset_grows(s.column, k);
                    assert forall|j: int| 0 <= j < k + 1 implies #[trigger] s.column.blocks.contains_key(
                        j,
                    ) by {
                        if block < j < k {
                            assert(s.excludes(j));
                        }
                    }
                }
            }
        },
        _ => {},
    }
}

/// A delivery leaves a well-formed scan well formed.
pub proof fn lemma_supply_keeps_wf(s: ScanView, data: Seq<u8>)
    requires
        s.wf(),
    ensures
        s.supplied(data).0.wf(),
{
    match s.phase {
        Phase::Waiting(request) => {
            let k = request.block as int;
            lemma_block_len_bound(s.column, k);
            assert(s.column.blocks.contains_key(k));
        },
        _ => {},
    }
}

/// Whether a file holds a column as its catalog entry describes it: the
/// entry has statistics for every block, the blocks lie within the file and
/// within reach of an offset, and every field holds a value.
pub open spec fn file_holds(column: ColumnView, file: Seq<u8>) -> bool {
    &&& column.has_blocks_before(column.num_blocks)
    &&& column.offset_of_block(column.num_blocks) <= file.len()
    &&& column.offset_of_block(column.num_blocks) <= u64::MAX
    &&& forall|k: int|
        0 <= k < column.num_blocks ==> block_decodes(
            column.kind,
            #[trigger] block_bytes(column, file, k),
            column.count(k),
        )
}

/// Whether the block that a scan has loaded is the one that the file holds.
pub open spec fn agrees(s: ScanView, file: Seq<u8>) -> bool {
    s.phase matches Phase::Active { block, start, cursor } ==> cursor.data == block_bytes(
        s.column,
        file,
        block,
    ) && cursor.count == s.column.count(block)
}

/// Blocks lie one after the other.
proof fn lemma_offsets_ascend(column: ColumnView, i: int, j: int)
    requires
        column.wf(),
        i <= j,
    ensures
        column.offset_of_block(i) <= column.offset_of_block(j),
    decreases j - i,
{
    if i < j {
        lemma_offsets_ascend(column, i, j - 1);
        lemma_block_len_bound(column, j - 1);
    }
}

/// In a file that holds the column, the bytes of a block are as many as its
/// request asks for.
pub proof fn lemma_block_is_in_the_file(column: ColumnView, file: Seq<u8>, k: int)
    requires
        column.wf(),
        file_holds(column, file),
        0 <= k < column.num_blocks,
    ensures
        0 <= column.offset_of_block(k),
        column.offset_of_block(k) + column.block_len(k) <= file.len(),
        block_bytes(column, file, k).len() == column.block_len(k),
        request_of(column, k).len == column.block_len(k),
        request_of(column, k).offset == column.offset_of_block(k),
{
    lemma_block_len_bound(column, k);
    lemma_offset_grows(column, k);
    lemma_offsets_ascend(column, k + 1, column.num_blocks);
}

/// A scan of a column starts on every file that holds the column, if its
/// bounds are of the column's type.
pub proof fn lemma_scan_starts(
    name: String,
    column: ColumnView,
    lower: Option<Value>,
    upper: Option<Value>,
    file: Seq<u8>,
)
    requires
        column.wf(),
        file_holds(column, file),
        bounds_fit(column.kind, lower, upper),
    ensures
        scan_start(name, column, lower, upper) is Ok,
        scan_start(name, column, lower, upper)->Ok_0.wf(),
        agrees(scan_start(name, column, lower, upper)->Ok_0, file),
{
    assert(column.blocks.contains_key(0));
    lemma_block_len_bound(column, 0);
}

/// On a file that holds the column no step of its scan fails, and what the
/// scan has loaded stays what the file holds.
pub proof fn lemma_step_does_not_fail(s: ScanView, file: Seq<u8>)
    requires
        s.wf(),
        file_holds(s.column, file),
        agrees(s, file),
    ensures
        s.step().1 is Ok,
        agrees(s.step().0, file),
{
    match s.phase {
        Phase::Active { block, start, cursor } => {
            if cursor.done() {
                lemma_kept_from_seek(s, file, block + 1);
                let k = s.seek(block + 1);
                if k < s.column.num_blocks {
                    assert(s.column.blocks.contains_key(k));
                    lemma_offsets_ascend(s.column, k, s.column.num_blocks);
                }
            } else {
                let bytes = block_bytes(s.column, file, block);
                lemma_block_is_in_the_file(s.column, file, block);
                let width = cursor.kind.spec_width();
                assert((cursor.next + 1) * width <= width * cursor.count) by (nonlinear_arith)
                    requires
                        cursor.next + 1 <= cursor.count,
                        width >= 0,
                ;
                assert(block_decodes(s.column.kind, bytes, s.column.count(block)));
                assert(field_value(cursor.kind, field_at(cursor.kind, cursor.data, cursor.next))
                    is Some);
            }
        },
        _ => {},
    }
}

/// On a file that holds the column, the bytes of the awaited block are
/// taken, and the scan then holds what the file holds.
pub proof fn lemma_supply_does_not_fail(s: ScanView, file: Seq<u8>)
    requires
        s.wf(),
        file_holds(s.column, file),
        s.phase is Waiting,
    ensures
        ({
            let data = block_bytes(s.column, file, s.phase->Waiting_0.block as int);
            &&& s.supplied(data).1 is Ok
            &&& agrees(s.supplied(data).0, file)
        }),
{
    let request = s.phase->Waiting_0;
    lemma_block_is_in_the_file(s.column, file, request.block as int);
}

/// The end of a file that is shorter than four bytes, states a length that
/// is not positive, or holds no `{` where its catalog should start, is
/// refused as not of the format.
pub proof fn lemma_malformed_trailer(tail: Seq<u8>, decoded: Result<DB721Meta, String>)
    requires
        tail.len() < 4 || stated_size(tail) <= 0 || (stated_size(tail) + 4 <= tail.len()
            && tail[tail.len() - 4 - stated_size(tail)] != 0x7b),
    ensures
        trailer_fault(tail) is Some,
        open_fault(tail, decoded) is Some,
{
}

} // verus!
