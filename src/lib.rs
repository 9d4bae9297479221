//! Storage-independent query criteria, their translation into SQL text, and
//! pagination arithmetic.
use vstd::prelude::*;

pub mod error;
pub mod query;
pub mod sql;
pub mod text;

pub use error::RepositoryError;
pub use query::{
    Condition, ConditionValue, FilterCriteria, Operator, Page, Pagination, SortDirection, SortOrder,
};
pub use sql::SqlxAdapter;

verus! {

} // verus!
