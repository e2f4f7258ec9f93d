//! What a scan gives when it is run to its end on a file, each of its
//! requests answered with the bytes that the file holds.

use crate::block::{field_at, values_from};
use crate::column::ColumnView;
use crate::field::field_value;
use crate::kind::ValueKind;
use crate::laws::{
    agrees, block_bytes, block_values, column_values, file_holds, kept_values, lemma_block_is_in_the_file,
    lemma_scan_starts, lemma_step_does_not_fail, lemma_step_gives_next_value, lemma_step_keeps_pending,
    lemma_step_keeps_wf, lemma_supply_does_not_fail, lemma_supply_keeps_pending, lemma_supply_keeps_wf,
    lemma_unbounded_scan_gives_every_row, lemma_values_len, pending,
};
use crate::scan::{bounds_fit, scan_start, Phase, ScanOut, ScanView};
use crate::value::Value;
use vstd::prelude::*;

verus! {

/// The values that a scan gives from where it stands to its end, when each
/// request is answered with the bytes of the file; none if the scan fails,
/// or has not ended after `fuel` steps.
pub open spec fn run(s: ScanView, file: Seq<u8>, fuel: nat) -> Option<Seq<Value>>
    decreases fuel,
{
    if fuel == 0 {
        None
    } else {
        match s.step() {
            (t, Ok(ScanOut::End)) => Some(Seq::empty()),
            (t, Ok(ScanOut::Value(v))) => match run(t, file, (fuel - 1) as nat) {
                Some(rest) => Some(seq![v] + rest),
                None => None,
            },
            (t, Ok(ScanOut::Fetch(request))) => match t.supplied(
                block_bytes(t.column, file, request.block as int),
            ) {
                (u, Ok(())) => run(u, file, (fuel - 1) as nat),
                (u, Err(_)) => None,
            },
            (t, Err(_)) => None,
        }
    }
}

/// The steps that a scan takes from the end of the blocks before `from` to
/// its own end: one for the end, and for each block it keeps one for the
/// request and one for each value.
pub open spec fn steps_from(s: ScanView, from: int) -> int
    decreases s.column.num_blocks - from,
{
    if from >= s.column.num_blocks {
        1
    } else if s.excludes(from) {
        steps_from(s, from + 1)
    } else {
        1 + s.column.count(from) + steps_from(s, from + 1)
    }
}

/// The steps that a scan takes from where it stands to its end.
pub open spec fn steps_left(s: ScanView) -> int {
    match s.phase {
        Phase::Exhausted => 1,
        Phase::Waiting(request) => 1 + s.column.count(request.block as int) + steps_from(
            s,
            request.block + 1,
        ),
        Phase::Active { block, start, cursor } => cursor.count - cursor.next + steps_from(
            s,
            block + 1,
        ),
    }
}

proof fn lemma_steps_from(s: ScanView, from: int)
    requires
        s.column.wf(),
    ensures
        steps_from(s, from) >= 1,
        steps_from(s, from) == steps_from(s, s.seek(from)),
        from <= s.column.num_blocks ==> from <= s.seek(from) <= s.column.num_blocks,
        s.seek(from) < s.column.num_blocks ==> !s.excludes(s.seek(from)),
    decreases s.column.num_blocks - from,
{
    if from < s.column.num_blocks {
        lemma_steps_from(s, from + 1);
    }
}

proof fn lemma_steps_same(s: ScanView, t: ScanView, from: int)
    requires
        s.column == t.column,
        s.lower == t.lower,
        s.upper == t.upper,
    ensures
        steps_from(s, from) == steps_from(t, from),
    decreases s.column.num_blocks - from,
{
    if from < s.column.num_blocks {
        lemma_steps_same(s, t, from + 1);
    }
}

/// On a file that holds its column a scan runs to its end without failure,
/// and gives exactly the values that were pending, in their order.
pub proof fn lemma_run_gives_the_pending_values(s: ScanView, file: Seq<u8>)
    requires
        s.wf(),
        file_holds(s.column, file),
        agrees(s, file),
    ensures
        steps_left(s) >= 1,
        run(s, file, steps_left(s) as nat) == Some(pending(s, file)),
    decreases steps_left(s),
{
    lemma_step_does_not_fail(s, file);
    lemma_step_keeps_wf(s);
    let t = s.step().0;
    match s.phase {
        Phase::Exhausted => {},
        Phase::Waiting(request) => {
            let k = request.block as int;
            lemma_steps_from(s, k + 1);
            assert(s.column.blocks.contains_key(k));
            lemma_supply_does_not_fail(s, file);
            let data = block_bytes(s.column, file, k);
            lemma_block_is_in_the_file(s.column, file, k);
            lemma_supply_keeps_wf(s, data);
            lemma_supply_keeps_pending(s, file, data);
            let u = s.supplied(data).0;
            lemma_steps_same(s, u, k + 1);
            lemma_run_gives_the_pending_values(u, file);
        },
        Phase::Active { block, start, cursor } => {
            lemma_steps_from(s, block + 1);
            if cursor.done() {
                lemma_step_keeps_pending(s, file);
                let k = s.seek(block + 1);
                if k < s.column.num_blocks {
                    assert(s.column.blocks.contains_key(k));
                    lemma_supply_does_not_fail(t, file);
                    let data = block_bytes(s.column, file, k);
                    lemma_block_is_in_the_file(s.column, file, k);
                    lemma_supply_keeps_wf(t, data);
                    lemma_supply_keeps_pending(t, file, data);
                    let u = t.supplied(data).0;
                    lemma_steps_same(s, u, k + 1);
                    lemma_run_gives_the_pending_values(u, file);
                }
            } else {
                lemma_step_gives_next_value(s, file);
                lemma_steps_same(s, t, block + 1);
                lemma_run_gives_the_pending_values(t, file);
            }
        },
    }
}

/// A scan without bounds, run from its start to its end on a file that
/// holds the column, gives every value of the column: as many as the column
/// has rows, block after block and within a block in the order of the bytes.
pub proof fn lemma_unbounded_run_gives_the_column(name: String, column: ColumnView, file: Seq<u8>)
    requires
        column.wf(),
        file_holds(column, file),
    ensures
        scan_start(name, column, None, None) is Ok,
        ({
            let s = scan_start(name, column, None, None)->Ok_0;
            &&& run(s, file, steps_left(s) as nat) == Some(column_values(column, file, 0))
            &&& column_values(column, file, 0).len() == column.total_rows()
        }),
{
    lemma_scan_starts(name, column, None, None, file);
    let s = scan_start(name, column, None, None)->Ok_0;
    lemma_unbounded_scan_gives_every_row(name, column, file);
    lemma_run_gives_the_pending_values(s, file);
}

/// The bytes of the row of index `n` of a column: the column's values lie
/// one after the other from its start on.
pub open spec fn row_bytes(column: ColumnView, file: Seq<u8>, n: int) -> Seq<u8> {
    file.subrange(
        column.start_offset + n * column.kind.spec_width(),
        column.start_offset + (n + 1) * column.kind.spec_width(),
    )
}

/// The value of the row of index `n` of a column.
pub open spec fn row_value(column: ColumnView, file: Seq<u8>, n: int) -> Value {
    field_value(column.kind, row_bytes(column, file, n))->Some_0
}

/// A block starts after the rows of the blocks before it.
proof fn lemma_offset_counts_rows(column: ColumnView, k: int)
    requires
        column.wf(),
        0 <= k,
    ensures
        column.rows_before(k) >= 0,
        column.offset_of_block(k) == column.start_offset + column.rows_before(k)
            * column.kind.spec_width(),
    decreases k,
{
    if k > 0 {
        lemma_offset_counts_rows(column, k - 1);
        let w = column.kind.spec_width();
        let r = column.rows_before(k - 1);
        let c = column.count(k - 1);
        assert((r + c) * w == r * w + w * c) by (nonlinear_arith);
    }
}

/// The value of index `i` of a block is the value of its field of that index.
proof fn lemma_value_of_index(kind: ValueKind, data: Seq<u8>, from: int, count: int, i: int)
    requires
        0 <= from <= i < count,
    ensures
        values_from(kind, data, from, count).len() == count - from,
        values_from(kind, data, from, count)[i - from] == field_value(
            kind,
            field_at(kind, data, i),
        )->Some_0,
    decreases i - from,
{
    lemma_values_len(kind, data, from, count);
    lemma_values_len(kind, data, from + 1, count);
    if from < i {
        lemma_value_of_index(kind, data, from + 1, count, i);
    }
}

/// The values of the blocks from `from` on are the rows after those of the
/// blocks before, each read from its own bytes.
proof fn lemma_column_value_at(column: ColumnView, file: Seq<u8>, from: int, m: int)
    requires
        column.wf(),
        file_holds(column, file),
        0 <= from <= column.num_blocks,
        0 <= m < column_values(column, file, from).len(),
    ensures
        column_values(column, file, from)[m] == row_value(
            column,
            file,
            column.rows_before(from) + m,
        ),
    decreases column.num_blocks - from,
{
    if from < column.num_blocks {
        let w = column.kind.spec_width();
        let c = column.count(from);
        let r = column.rows_before(from);
        let bytes = block_bytes(column, file, from);
        assert(column.blocks.contains_key(from));
        lemma_values_len(column.kind, bytes, 0, c);
        lemma_block_is_in_the_file(column, file, from);
        lemma_offset_counts_rows(column, from);
        lemma_offset_counts_rows(column, column.num_blocks);
        if m < c {
            lemma_value_of_index(column.kind, bytes, 0, c, m);
            assert((m + 1) * w <= w * c && m * w >= 0 && (m + 1) * w == m * w + w
                && (r + m) * w == r * w + m * w && (r + m + 1) * w == r * w + m * w + w && r * w
                >= 0) by (nonlinear_arith)
                requires
                    0 <= m < c,
                    w >= 0,
                    r >= 0,
            ;
            let start = column.offset_of_block(from);
            assert(bytes.len() == w * c);
            assert(bytes.subrange(m * w, (m + 1) * w) =~= file.subrange(
                start + m * w,
                start + (m + 1) * w,
            ));
            assert(field_at(column.kind, bytes, m) == row_bytes(column, file, r + m));
        } else {
            lemma_column_value_at(column, file, from + 1, m - c);
        }
    }
}

/// A scan without bounds gives as its value of index `n` the value that
/// the file holds at the row of that index: the field of the column's type
/// that starts `n` widths after the column's start.
pub proof fn lemma_unbounded_run_gives_row_after_row(
    name: String,
    column: ColumnView,
    file: Seq<u8>,
    n: int,
)
    requires
        column.wf(),
        file_holds(column, file),
        0 <= n < column.total_rows(),
    ensures
        ({
            let s = scan_start(name, column, None, None)->Ok_0;
            run(s, file, steps_left(s) as nat)->Some_0[n] == row_value(column, file, n)
        }),
{
    lemma_unbounded_run_gives_the_column(name, column, file);
    lemma_column_value_at(column, file, 0, n);
    assert(column.rows_before(0) == 0);
}

/// The number of values that a scan gives from the blocks from `from` on
/// that come before block `j`.
pub open spec fn kept_before(s: ScanView, from: int, j: int) -> int
    decreases j - from,
{
    if from >= j {
        0
    } else if s.excludes(from) {
        kept_before(s, from + 1, j)
    } else {
        s.column.count(from) + kept_before(s, from + 1, j)
    }
}

/// A block that the bounds do not rule out stands whole among the values
/// that the scan keeps: every one of its values, in the order of the bytes.
pub proof fn lemma_kept_block_is_whole(s: ScanView, file: Seq<u8>, from: int, j: int)
    requires
        s.column.wf(),
        0 <= from <= j < s.column.num_blocks,
        !s.excludes(j),
    ensures
        0 <= kept_before(s, from, j),
        kept_before(s, from, j) + s.column.count(j) <= kept_values(s, file, from).len(),
        kept_values(s, file, from).subrange(
            kept_before(s, from, j),
            kept_before(s, from, j) + s.column.count(j),
        ) == block_values(s.column, file, j),
    decreases j - from,
{
    let c = s.column.count(from);
    let values = block_values(s.column, file, from);
    let rest = kept_values(s, file, from + 1);
    lemma_values_len(s.column.kind, block_bytes(s.column, file, from), 0, c);
    if from == j {
        assert((values + rest).subrange(0, c) == values);
    } else {
        lemma_kept_block_is_whole(s, file, from + 1, j);
        if !s.excludes(from) {
            let p = kept_before(s, from + 1, j);
            let q = p + s.column.count(j);
            assert((values + rest).subrange(c + p, c + q) == rest.subrange(p, q));
        }
    }
}

/// Where the values of block `j` stand among those that a scan gives from
/// its start: block 0 comes first, whatever the bounds.
pub open spec fn place_of_block(s: ScanView, j: int) -> int {
    if j <= 0 {
        0
    } else {
        s.column.count(0) + kept_before(s, 1, j)
    }
}

/// A scan with bounds, run to its end, gives every block that it keeps
/// whole: all its values, those outside the bounds too, in the order of the
/// bytes. Block 0 is kept whatever the bounds.
pub proof fn lemma_run_gives_kept_blocks_whole(
    name: String,
    column: ColumnView,
    lower: Option<Value>,
    upper: Option<Value>,
    file: Seq<u8>,
    j: int,
)
    requires
        column.wf(),
        file_holds(column, file),
        bounds_fit(column.kind, lower, upper),
        0 <= j < column.num_blocks,
        j == 0 || !scan_start(name, column, lower, upper)->Ok_0.excludes(j),
    ensures
        ({
            let s = scan_start(name, column, lower, upper)->Ok_0;
            let given = run(s, file, steps_left(s) as nat)->Some_0;
            &&& run(s, file, steps_left(s) as nat) is Some
            &&& 0 <= place_of_block(s, j)
            &&& place_of_block(s, j) + column.count(j) <= given.len()
            &&& given.subrange(place_of_block(s, j), place_of_block(s, j) + column.count(j))
                == block_values(column, file, j)
        }),
{
    lemma_scan_starts(name, column, lower, upper, file);
    let s = scan_start(name, column, lower, upper)->Ok_0;
    lemma_run_gives_the_pending_values(s, file);
    let first = block_values(column, file, 0);
    let rest = kept_values(s, file, 1);
    let c = column.count(0);
    assert(column.blocks.contains_key(0));
    lemma_values_len(column.kind, block_bytes(column, file, 0), 0, c);
    if j == 0 {
        assert((first + rest).subrange(0, c) == first);
    } else {
        lemma_kept_block_is_whole(s, file, 1, j);
        let p = kept_before(s, 1, j);
        let q = p + column.count(j);
        assert((first + rest).subrange(c + p, c + q) == rest.subrange(p, q));
    }
}

/// Whether `a` is `b` with some of its values left out.
pub open spec fn is_subsequence(a: Seq<Value>, b: Seq<Value>) -> bool
    decreases b.len(),
{
    if a.len() == 0 {
        true
    } else if b.len() == 0 {
        false
    } else {
        ||| a[0] == b[0] && is_subsequence(a.drop_first(), b.drop_first())
        ||| is_subsequence(a, b.drop_first())
    }
}

proof fn lemma_subsequence_after(a: Seq<Value>, front: Seq<Value>, b: Seq<Value>)
    requires
        is_subsequence(a, b),
    ensures
        is_subsequence(a, front + b),
    decreases front.len(),
{
    if front.len() == 0 {
        assert(front + b == b);
    } else {
        lemma_subsequence_after(a, front.drop_first(), b);
        assert((front + b).drop_first() == front.drop_first() + b);
    }
}

proof fn lemma_subsequence_behind(front: Seq<Value>, a: Seq<Value>, b: Seq<Value>)
    requires
        is_subsequence(a, b),
    ensures
        is_subsequence(front + a, front + b),
    decreases front.len(),
{
    if front.len() == 0 {
        assert(front + a == a);
        assert(front + b == b);
    } else {
        lemma_subsequence_behind(front.drop_first(), a, b);
        assert((front + a).drop_first() == front.drop_first() + a);
        assert((front + b).drop_first() == front.drop_first() + b);
    }
}

proof fn lemma_kept_is_part_of_the_column(s: ScanView, file: Seq<u8>, from: int)
    ensures
        is_subsequence(kept_values(s, file, from), column_values(s.column, file, from)),
    decreases s.column.num_blocks - from,
{
    if from < s.column.num_blocks {
        lemma_kept_is_part_of_the_column(s, file, from + 1);
        let values = block_values(s.column, file, from);
        let kept = kept_values(s, file, from + 1);
        let all = column_values(s.column, file, from + 1);
        if s.excludes(from) {
            lemma_subsequence_after(kept, values, all);
        } else {
            lemma_subsequence_behind(values, kept, all);
        }
    }
}

/// What a scan with bounds gives is what the scan without bounds gives with
/// some values left out: it adds nothing and changes no order.
pub proof fn lemma_bounded_run_is_part_of_the_unbounded(
    name: String,
    column: ColumnView,
    lower: Option<Value>,
    upper: Option<Value>,
    file: Seq<u8>,
)
    requires
        column.wf(),
        file_holds(column, file),
        bounds_fit(column.kind, lower, upper),
    ensures
        ({
            let bounded = scan_start(name, column, lower, upper)->Ok_0;
            let unbounded = scan_start(name, column, None, None)->Ok_0;
            &&& run(bounded, file, steps_left(bounded) as nat) is Some
            &&& run(unbounded, file, steps_left(unbounded) as nat) is Some
            &&& is_subsequence(
                run(bounded, file, steps_left(bounded) as nat)->Some_0,
                run(unbounded, file, steps_left(unbounded) as nat)->Some_0,
            )
        }),
{
    lemma_scan_starts(name, column, lower, upper, file);
    let bounded = scan_start(name, column, lower, upper)->Ok_0;
    lemma_run_gives_the_pending_values(bounded, file);
    lemma_unbounded_run_gives_the_column(name, column, file);
    lemma_kept_is_part_of_the_column(bounded, file, 1);
    lemma_subsequence_behind(
        block_values(column, file, 0),
        kept_values(bounded, file, 1),
        column_values(column, file, 1),
    );
}

} // verus!
