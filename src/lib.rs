//! A typed column store with the bookkeeping of a variance-decomposition
//! pipeline: column kinds, lookups by name, grouping of rows by categorical
//! levels, degrees of freedom, and the shape checks of a regression fit.
//!
//! Numeric columns are generic over their scalar type `N`: the store moves
//! such values around but never computes with them, so every rule here holds
//! whatever arithmetic a caller runs on top of it.

mod column;
mod decomposition;
mod errors;
mod frame;
mod levels;
mod regression;

pub use column::{
    BinaryColumn, BinaryEntry, CategoricalColumn, CategoricalEntry, Column, ColumnType,
    NumericalColumn, NumericalEntry, Value,
};
pub use decomposition::{
    anova_degrees_of_freedom, check_covariate_lengths, covariate_degrees_of_freedom,
    lemma_one_way_df_partition, DegreesOfFreedom,
};
pub use errors::DatasetError;
pub use frame::{ColumnGroupCategoricalItem, ColumnGroupNumericItem, DataFrame};
pub use levels::{group_levels, LevelGroup};
pub use regression::{check_design, check_square, transpose};
