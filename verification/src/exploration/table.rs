//! Column-oriented exploration tables; values are binary64 bit patterns.
use vstd::prelude::*;

use crate::text::str_eq;
use crate::search::{any_below, first_index, lemma_first_index};

verus! {

/// One named column of values.
#[derive(Debug, Clone, PartialEq)]
pub struct ExplorationColumn {
    pub name: String,
    pub values: Vec<u64>,
}

impl ExplorationColumn {
    /// Creates a named column.
    pub fn new(name: String, values: Vec<u64>) -> (column: Self)
        ensures
            column.name@ == name@,
            column.values@ == values@,
    {
        ExplorationColumn { name, values }
    }
}

/// Columns that describe the same rows.
#[derive(Debug, Clone, PartialEq)]
pub struct ExplorationTable {
    pub columns: Vec<ExplorationColumn>,
    pub row_count: usize,
}

/// Errors produced while deriving table columns.
#[derive(Debug, Clone, PartialEq, Eq)]
pub enum ExplorationTableError {
    MissingColumn { column: String },
    MaskLengthMismatch { column: String, mask_len: usize, values_len: usize },
    ColumnLengthMismatch { column: String, expected: usize, actual: usize },
}

/// Column `i` is named `name`.
pub open spec fn column_named(columns: Seq<ExplorationColumn>, name: Seq<char>) -> spec_fn(int) -> bool {
    |i: int| columns[i].name@ == name
}

/// Position of the first column named `name`, if any.
pub open spec fn column_index(columns: Seq<ExplorationColumn>, name: Seq<char>) -> Option<int> {
    if any_below(columns.len() as int, column_named(columns, name)) {
        Some(first_index(columns.len() as int, column_named(columns, name)))
    } else {
        None
    }
}

/// Source `k` is missing or has a length other than the row count.
pub open spec fn bad_source_pred(table: ExplorationTable, sources: Seq<&str>) -> spec_fn(int) -> bool {
    |k: int|
        match column_index(table.columns@, sources[k]@) {
            None => true,
            Some(i) => table.columns@[i].values@.len() != table.row_count,
        }
}

/// A found column is in range and carries the name.
pub proof fn lemma_column_index(columns: Seq<ExplorationColumn>, name: Seq<char>)
    ensures
        column_index(columns, name) matches Some(i) ==> 0 <= i < columns.len() && columns[i].name@ == name,
{
    if any_below(columns.len() as int, column_named(columns, name)) {
        crate::search::lemma_first_exists(columns.len() as int, column_named(columns, name));
    }
}

impl ExplorationTable {
    /// Returns the position of the first column named `name`.
    pub fn column_position(&self, name: &str) -> (position: Option<usize>)
        ensures
            match column_index(self.columns@, name@) {
                Some(i) => position matches Some(p) && p as int == i,
                None => position is None,
            },
            position matches Some(p) ==> p < self.columns@.len(),
    {
        proof {
            lemma_column_index(self.columns@, name@);
        }
        let n = self.columns.len();
        let mut i: usize = 0;
        while i < n
            invariant
                n == self.columns@.len(),
                i <= n,
                forall|k: int| 0 <= k < i ==> !#[trigger] column_named(self.columns@, name@)(k),
            decreases n - i,
        {
            if str_eq(self.columns[i].name.as_str(), name) {
                proof {
                    lemma_first_index(n as int, column_named(self.columns@, name@), i as int);
                }
                return Some(i);
            }
            i = i + 1;
        }
        None
    }

    /// Returns the first column named `name`.
    pub fn column(&self, name: &str) -> (column: Option<&ExplorationColumn>)
        ensures
            match column_index(self.columns@, name@) {
                Some(i) => column == Some(&self.columns@[i]),
                None => column is None,
            },
    {
        match self.column_position(name) {
            Some(i) => Some(&self.columns[i]),
            None => None,
        }
    }

    /// Resolves the columns to add up into a new column: the position of each
    /// source, or the first source that is missing or whose length differs
    /// from the row count.
    pub fn sum_sources(&self, source_columns: &[&str]) -> (result: Result<Vec<usize>, ExplorationTableError>)
        ensures
            match result {
                Ok(positions) => !any_below(source_columns@.len() as int, bad_source_pred(*self, source_columns@))
                    && positions@.len() == source_columns@.len() && forall|k: int|
                    0 <= k < positions@.len() ==> column_index(self.columns@, source_columns@[k]@) == Some(
                        #[trigger] positions@[k] as int,
                    ),
                Err(error) => any_below(source_columns@.len() as int, bad_source_pred(*self, source_columns@))
                    && {
                    let k = first_index(source_columns@.len() as int, bad_source_pred(*self, source_columns@));
                    match column_index(self.columns@, source_columns@[k]@) {
                        None => error matches ExplorationTableError::MissingColumn { column } && column@
                            == source_columns@[k]@,
                        Some(i) => error matches ExplorationTableError::ColumnLengthMismatch {
                            column,
                            expected,
                            actual,
                        } && column@ == self.columns@[i].name@ && expected == self.row_count && actual
                            == self.columns@[i].values@.len(),
                    }
                },
            },
    {
        let ghost sources = source_columns@;
        let m = source_columns.len();
        let mut positions: Vec<usize> = Vec::new();
        let mut k: usize = 0;
        while k < m
            invariant
                sources == source_columns@,
                m == sources.len(),
                k <= m,
                positions@.len() == k,
                forall|j: int| 0 <= j < k ==> !#[trigger] bad_source_pred(*self, sources)(j),
                forall|j: int| 0 <= j < k ==> column_index(self.columns@, sources[j]@) == Some(
                    #[trigger] positions@[j] as int,
                ),
            decreases m - k,
        {
            match self.column_position(source_columns[k]) {
                None => {
                    proof {
                        lemma_first_index(m as int, bad_source_pred(*self, sources), k as int);
                    }
                    return Err(ExplorationTableError::MissingColumn { column: copy_str(source_columns[k]) });
                },
                Some(i) => {
                    let column = &self.columns[i];
                    if column.values.len() != self.row_count {
                        proof {
                            lemma_first_index(m as int, bad_source_pred(*self, sources), k as int);
                        }
                        return Err(
                            ExplorationTableError::ColumnLengthMismatch {
                                column: column.name.clone(),
                                expected: self.row_count,
                                actual: column.values.len(),
                            },
                        );
                    }
                    positions.push(i);
                },
            }
            k = k + 1;
        }
        Ok(positions)
    }

    /// Appends a column.
    pub fn push_column(&mut self, column: ExplorationColumn)
        ensures
            final(self).columns@ == old(self).columns@.push(column),
            final(self).row_count == old(self).row_count,
    {
        self.columns.push(column);
    }
}

/// Copies a string slice into an owned string.
pub fn copy_str(s: &str) -> (owned: String)
    ensures
        owned@ == s@,
{
    s.to_owned()
}

} // verus!
