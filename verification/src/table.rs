//! The catalog of a table and the table as opened.

use crate::column::{ColumnMeta, ColumnView};
use crate::error::{Error, FormatFault, SchemaFault};
use crate::kind::{same_text, ValueKind};
use crate::trailer::{locate_catalog, read_meta_size, stated_size, trailer_fault};
use std::path::PathBuf;
use vstd::prelude::*;

verus! {

/// The catalog of a table: its name, the block size it was written with,
/// and its columns by name.
#[derive(Debug)]
pub struct DB721Meta {
    table_name: String,
    max_value_per_block: i32,
    column_meta: Vec<(String, ColumnMeta)>,
}

/// What a [`DB721Meta`] says.
pub ghost struct TableView {
    pub table_name: Seq<char>,
    pub max_value_per_block: int,
    pub columns: Seq<(Seq<char>, ColumnView)>,
}

/// No two columns share a name.
pub open spec fn names_differ(columns: Seq<(Seq<char>, ColumnView)>) -> bool {
    forall|i: int, j: int|
        0 <= i < j < columns.len() ==> (#[trigger] columns[i]).0 != (#[trigger] columns[j]).0
}

/// Every column holds as many values as the first.
pub open spec fn rows_agree(columns: Seq<(Seq<char>, ColumnView)>) -> bool {
    forall|i: int|
        0 <= i < columns.len() ==> (#[trigger] columns[i]).1.total_rows()
            == columns[0].1.total_rows()
}

impl TableView {
    /// A catalog maps each name to one column, every column is well formed,
    /// and all columns have the same number of rows.
    pub open spec fn wf(self) -> bool {
        &&& names_differ(self.columns)
        &&& rows_agree(self.columns)
        &&& forall|i: int| 0 <= i < self.columns.len() ==> (#[trigger] self.columns[i]).1.wf()
    }

    /// The number of rows of the table: that of any column, and none for a
    /// table without columns.
    pub open spec fn row_count(self) -> int {
        if self.columns.len() == 0 {
            0
        } else {
            self.columns[0].1.total_rows()
        }
    }

    /// Where the column of the given name stands, if there is one.
    pub open spec fn position(self, name: Seq<char>) -> Option<int> {
        if exists|i: int| 0 <= i < self.columns.len() && (#[trigger] self.columns[i]).0 == name {
            Some(choose|i: int| 0 <= i < self.columns.len() && (#[trigger] self.columns[i]).0 == name)
        } else {
            None
        }
    }
}

/// The columns of a list by their views.
pub open spec fn columns_view(columns: Seq<(String, ColumnMeta)>) -> Seq<(Seq<char>, ColumnView)> {
    Seq::new(columns.len(), |i: int| (columns[i].0@, columns[i].1@))
}

/// Why a catalog of these columns is refused, if it is: two columns share a
/// name, or two differ in their number of rows.
pub open spec fn catalog_fault(columns: Seq<(Seq<char>, ColumnView)>) -> Option<Error> {
    if !names_differ(columns) {
        Some(Error::Format(FormatFault::ColumnName))
    } else if !rows_agree(columns) {
        Some(Error::SchemaInconsistency(SchemaFault::RowCount))
    } else {
        None
    }
}

impl View for DB721Meta {
    type V = TableView;

    closed spec fn view(&self) -> TableView {
        TableView {
            table_name: self.table_name@,
            max_value_per_block: self.max_value_per_block as int,
            columns: columns_view(self.column_meta@),
        }
    }
}

impl DB721Meta {
    #[verifier::type_invariant]
    closed spec fn inv(self) -> bool {
        self@.wf()
    }

    /// A catalog of the given columns. It is refused where two columns share
    /// a name and where the columns differ in their number of rows.
    pub fn new(
        table_name: String,
        max_value_per_block: i32,
        column_meta: Vec<(String, ColumnMeta)>,
    ) -> (r: Result<DB721Meta, Error>)
        ensures
            match catalog_fault(columns_view(column_meta@)) {
                Some(e) => r == Err::<DB721Meta, Error>(e),
                None => r is Ok && r->Ok_0@ == (TableView {
                    table_name: table_name@,
                    max_value_per_block: max_value_per_block as int,
                    columns: columns_view(column_meta@),
                }) && r->Ok_0@.wf(),
            },
    {
        let ghost columns = columns_view(column_meta@);
        let n = column_meta.len();
        let mut j: usize = 0;
        while j < n
            invariant
                n == column_meta.len(),
                columns == columns_view(column_meta@),
                j <= n,
                forall|a: int, b: int|
                    0 <= a < b < j ==> (#[trigger] columns[a]).0 != (#[trigger] columns[b]).0,
            decreases n - j,
        {
            let mut i: usize = 0;
            while i < j
                invariant
                    n == column_meta.len(),
                    columns == columns_view(column_meta@),
                        i <= j < n,
                    forall|a: int| 0 <= a < i ==> (#[trigger] columns[a]).0 != columns[j as int].0,
                decreases j - i,
            {
                if same_text(column_meta[i].0.as_str(), column_meta[j].0.as_str()) {
                    assert(columns[i as int].0 == columns[j as int].0);
                    assert(!names_differ(columns));
                    return Err(Error::Format(FormatFault::ColumnName));
                }
                i = i + 1;
            }
            j = j + 1;
        }
        assert(names_differ(columns));
        let mut k: usize = 0;
        let mut rows: u64 = 0;
        while k < n
            invariant
                n == column_meta.len(),
                columns == columns_view(column_meta@),
                names_differ(columns),
                k <= n,
                k > 0 ==> rows == columns[0].1.total_rows(),
                forall|a: int|
                    0 <= a < k ==> (#[trigger] columns[a]).1.total_rows()
                        == columns[0].1.total_rows(),
                forall|a: int| 0 <= a < k ==> (#[trigger] columns[a]).1.wf(),
            decreases n - k,
        {
            // Reading the kind tells that the column is well formed.
            let _ = column_meta[k].1.kind();
            let total = column_meta[k].1.total_rows();
            if k == 0 {
                rows = total;
            } else if total != rows {
                assert(columns[k as int].1.total_rows() != columns[0].1.total_rows());
                assert(!rows_agree(columns));
                return Err(Error::SchemaInconsistency(SchemaFault::RowCount));
            }
            k = k + 1;
        }
        assert(rows_agree(columns));
        Ok(DB721Meta { table_name, max_value_per_block, column_meta })
    }

    /// The name of the table.
    pub fn table_name(&self) -> (r: &String)
        ensures
            r@ == self@.table_name,
    {
        &self.table_name
    }

    /// The number of values per block that the table was written with.
    pub fn max_value_per_block(&self) -> (r: i32)
        ensures
            r == self@.max_value_per_block,
    {
        self.max_value_per_block
    }

    /// The column of the given name. A name that the catalog lacks is an
    /// inconsistency of the schema.
    pub fn column(&self, name: &str) -> (r: Result<&ColumnMeta, Error>)
        ensures
            self@.wf(),
            match self@.position(name@) {
                Some(i) => r is Ok && r->Ok_0@ == self@.columns[i].1,
                None => r == Err::<&ColumnMeta, Error>(
                    Error::SchemaInconsistency(SchemaFault::MissingColumn),
                ),
            },
    {
        proof {
            use_type_invariant(self);
        }
        let mut i: usize = 0;
        while i < self.column_meta.len()
            invariant
                i <= self.column_meta.len(),
                self@.wf(),
                self@.columns == columns_view(self.column_meta@),
                forall|a: int| 0 <= a < i ==> (#[trigger] self@.columns[a]).0 != name@,
            decreases self.column_meta.len() - i,
        {
            if same_text(self.column_meta[i].0.as_str(), name) {
                proof {
                    let found = self@.position(name@);
                    assert(self@.columns[i as int].0 == name@);
                    assert(found is Some);
                    let at = found->Some_0;
                    if at < i {
                        assert(self@.columns[at].0 != self@.columns[i as int].0);
                    } else if at > i {
                        assert(self@.columns[i as int].0 != self@.columns[at].0);
                    }
                }
                return Ok(&self.column_meta[i].1);
            }
            i = i + 1;
        }
        Err(Error::SchemaInconsistency(SchemaFault::MissingColumn))
    }

    /// The columns with their types, in the order of the catalog.
    pub fn schema(&self) -> (r: Vec<(String, ValueKind)>)
        ensures
            r@.len() == self@.columns.len(),
            forall|i: int|
                0 <= i < r@.len() ==> (#[trigger] r@[i]).0@ == self@.columns[i].0 && r@[i].1
                    == self@.columns[i].1.kind,
    {
        let mut out: Vec<(String, ValueKind)> = Vec::new();
        let mut i: usize = 0;
        while i < self.column_meta.len()
            invariant
                i <= self.column_meta.len(),
                self@.columns == columns_view(self.column_meta@),
                out@.len() == i,
                forall|a: int|
                    0 <= a < i ==> (#[trigger] out@[a]).0@ == self@.columns[a].0 && out@[a].1
                        == self@.columns[a].1.kind,
            decreases self.column_meta.len() - i,
        {
            let name = self.column_meta[i].0.clone();
            let kind = self.column_meta[i].1.kind();
            out.push((name, kind));
            i = i + 1;
        }
        out
    }

    /// The number of rows of the table, which is the number of values of
    /// each of its columns.
    pub fn row_count(&self) -> (r: u64)
        ensures
            r == self@.row_count(),
            forall|i: int|
                0 <= i < self@.columns.len() ==> r == (#[trigger] self@.columns[i]).1.total_rows(),
    {
        proof {
            use_type_invariant(self);
        }
        if self.column_meta.len() == 0 {
            0
        } else {
            self.column_meta[0].1.total_rows()
        }
    }
}

/// A table as opened: where its file is, its catalog, and the length that
/// the catalog takes in the file.
#[derive(Debug)]
pub struct DB721 {
    path: PathBuf,
    meta: DB721Meta,
    meta_size: i32,
}

/// Why a table is not opened, if it is not: the end of the file is not
/// framed as it should be, or the catalog within it could not be decoded.
pub open spec fn open_fault(tail: Seq<u8>, decoded: Result<DB721Meta, String>) -> Option<
    FormatFault,
> {
    match trailer_fault(tail) {
        Some(fault) => Some(fault),
        None => match decoded {
            Ok(_) => None,
            Err(why) => Some(FormatFault::Decode(why)),
        },
    }
}

impl DB721 {
    /// The length of the catalog in the file.
    pub closed spec fn spec_meta_size(self) -> int {
        self.meta_size as int
    }

    /// The path of the table's file.
    pub closed spec fn spec_path(self) -> PathBuf {
        self.path
    }

    /// The catalog of the table.
    pub closed spec fn catalog(self) -> DB721Meta {
        self.meta
    }

    /// Opens the table at `path` from the bytes that end its file and from
    /// what decoding the catalog out of them gave: the catalog, or the
    /// decoder's word on why there is none. Nothing is opened unless the
    /// file ends in a positive length and, that many bytes before it, a
    /// catalog that starts with `{` and was decoded.
    pub fn open(path: PathBuf, tail: &[u8], decoded: Result<DB721Meta, String>) -> (r: Result<
        DB721,
        Error,
    >)
        ensures
            match open_fault(tail@, decoded) {
                Some(fault) => r == Err::<DB721, Error>(Error::Format(fault)),
                None => r is Ok && r->Ok_0.spec_path() == path && r->Ok_0.catalog()
                    == decoded->Ok_0 && r->Ok_0.spec_meta_size() == stated_size(tail@),
            },
    {
        if let Err(e) = locate_catalog(tail) {
            return Err(e);
        }
        let meta_size = match read_meta_size(tail) {
            Ok(size) => size,
            Err(e) => {
                return Err(e);
            },
        };
        match decoded {
            Ok(meta) => Ok(DB721 { path, meta, meta_size }),
            Err(why) => Err(Error::Format(FormatFault::Decode(why))),
        }
    }

    /// The length of the catalog in the file.
    pub fn meta_size(&self) -> (r: i32)
        ensures
            r == self.spec_meta_size(),
    {
        self.meta_size
    }

    /// The path of the table's file.
    pub fn path(&self) -> (r: &PathBuf)
        ensures
            *r == self.spec_path(),
    {
        &self.path
    }

    /// The catalog of the table.
    pub fn meta(&self) -> (r: &DB721Meta)
        ensures
            *r == self.catalog(),
    {
        &self.meta
    }

    /// The number of rows of the table.
    pub fn row_count(&self) -> (r: u64)
        ensures
            r == self.catalog()@.row_count(),
            forall|i: int|
                0 <= i < self.catalog()@.columns.len() ==> r == (
                #[trigger] self.catalog()@.columns[i]).1.total_rows(),
    {
        self.meta.row_count()
    }
}

} // verus!
