use vstd::prelude::*;

use crate::column::ColumnType;

verus! {

/// Every way in which a query on the store or a step of an analysis can fail.
#[derive(Debug, Clone, PartialEq)]
pub enum DatasetError {
    /// An index at or past the end of a sequence: `(index, length)`.
    EmptyValue(usize, usize),
    /// The named column is not of the kind that the operation needs.
    ColumnTypeMismatch(String, ColumnType),
    /// No column carries the given name.
    ColumnNotFound(String),
    /// A column of the given name is already in the store.
    DuplicateColumn(String),
    /// A raw value (first field) cannot be stored in the named column.
    ValueTypeMismatch(String, String, ColumnType),
    /// Empty input, mismatched dimensions or non-finite data.
    InvalidData(String),
    /// A pivot of a matrix inversion vanished.
    SingularMatrix,
    /// A group or a degree of freedom that would make a mean square undefined.
    DegenerateGroup(String),
}

} // verus!
