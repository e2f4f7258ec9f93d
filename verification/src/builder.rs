//! Setting up the scan of a column.

use crate::column::{ColumnMeta, ColumnView};
use crate::error::ScanError;
use crate::scan::{bound_view, scan_start, ColumnIterator};
use crate::value::{DB721Type, Value};
use std::path::PathBuf;
use vstd::prelude::*;

verus! {

/// `PathBuf::clone`. Trusted: the copy is the path that was copied.
#[verifier::external_body]
fn clone_path(path: &PathBuf) -> (r: PathBuf)
    ensures
        r == *path,
{
    path.clone()
}

/// Collects what a scan needs: the column, the file, and the range of values
/// that the caller is after.
#[derive(Debug)]
pub struct ColumnIteratorBuilder {
    column_meta: ColumnMeta,
    column_name: String,
    file_path: PathBuf,
    minv: Option<DB721Type>,
    maxv: Option<DB721Type>,
    min_len: Option<i32>,
    max_len: Option<i32>,
}

/// What a builder has collected.
pub ghost struct ScanPlan {
    pub column: ColumnView,
    pub name: String,
    pub path: PathBuf,
    pub lower: Option<Value>,
    pub upper: Option<Value>,
    pub min_len: Option<i32>,
    pub max_len: Option<i32>,
}

impl View for ColumnIteratorBuilder {
    type V = ScanPlan;

    closed spec fn view(&self) -> ScanPlan {
        ScanPlan {
            column: self.column_meta@,
            name: self.column_name,
            path: self.file_path,
            lower: bound_view(self.minv),
            upper: bound_view(self.maxv),
            min_len: self.min_len,
            max_len: self.max_len,
        }
    }
}

impl ColumnIteratorBuilder {
    /// A builder for a scan of the whole column.
    pub fn new(column_meta: ColumnMeta, column_name: String, file_path: PathBuf) -> (r: Self)
        ensures
            r@ == (ScanPlan {
                column: column_meta@,
                name: column_name,
                path: file_path,
                lower: None,
                upper: None,
                min_len: None,
                max_len: None,
            }),
    {
        ColumnIteratorBuilder {
            column_meta,
            column_name,
            file_path,
            minv: None,
            maxv: None,
            min_len: None,
            max_len: None,
        }
    }

    /// The scan as set up so far, at its start, bounds included.
    pub fn build(&self) -> (r: Result<ColumnIterator, ScanError>)
        ensures
            match scan_start(self@.name, self@.column, self@.lower, self@.upper) {
                Ok(s) => r is Ok && r->Ok_0@ == s && s.wf(),
                Err(e) => r == Err::<ColumnIterator, ScanError>(e),
            },
            r matches Ok(it) ==> it.path() == self@.path && it.lengths() == (
                self@.min_len,
                self@.max_len,
            ),
    {
        let minv = match &self.minv {
            Some(v) => Some(v.clone()),
            None => None,
        };
        let maxv = match &self.maxv {
            Some(v) => Some(v.clone()),
            None => None,
        };
        ColumnIterator::new(
            self.column_name.clone(),
            self.column_meta.clone(),
            clone_path(&self.file_path),
            minv,
            maxv,
            self.min_len,
            self.max_len,
        )
    }

    /// Asks only for values that are at least `minv`.
    pub fn set_min_value(&mut self, minv: DB721Type) -> (r: &mut Self)
        ensures
            r@ == (ScanPlan { lower: Some(minv@), ..old(self)@ }),
            *final(self) == *final(r),
    {
        self.minv = Some(minv);
        self
    }

    /// Asks only for values that are at most `maxv`.
    pub fn set_max_value(&mut self, maxv: DB721Type) -> (r: &mut Self)
        ensures
            r@ == (ScanPlan { upper: Some(maxv@), ..old(self)@ }),
            *final(self) == *final(r),
    {
        self.maxv = Some(maxv);
        self
    }

    /// Notes the least length of the strings asked for. No block is skipped
    /// on its account.
    pub fn set_min_len(&mut self, min_len: i32) -> (r: &mut Self)
        ensures
            r@ == (ScanPlan { min_len: Some(min_len), ..old(self)@ }),
            *final(self) == *final(r),
    {
        self.min_len = Some(min_len);
        self
    }

    /// Notes the greatest length of the strings asked for. No block is
    /// skipped on its account.
    pub fn set_max_len(&mut self, max_len: i32) -> (r: &mut Self)
        ensures
            r@ == (ScanPlan { max_len: Some(max_len), ..old(self)@ }),
            *final(self) == *final(r),
    {
        self.max_len = Some(max_len);
        self
    }
}

} // verus!
