//! Query filtering, sorting, and pagination types.
use vstd::prelude::*;

use crate::sql::{lemma_element_smaller, lemma_list_prefix_stable, list_size, list_text, value_size, value_text};

verus! {

/// Filter criteria for querying entities.
#[derive(Debug, Clone)]
pub struct FilterCriteria {
    /// Field-value conditions to match, combined with AND.
    pub conditions: Vec<Condition>,
    /// Sort order for results; the first entry is the primary key.
    pub sort: Vec<SortOrder>,
    /// Optional limit on number of results.
    pub limit: Option<i64>,
    /// Optional offset for pagination.
    pub offset: Option<i64>,
}

impl FilterCriteria {
    /// Creates a new empty filter criteria.
    pub fn new() -> (r: Self)
        ensures
            r.conditions@.len() == 0,
            r.sort@.len() == 0,
            r.limit is None,
            r.offset is None,
    {
        FilterCriteria { conditions: Vec::new(), sort: Vec::new(), limit: None, offset: None }
    }

    /// Adds a condition to the filter.
    pub fn with_condition(self, condition: Condition) -> (r: Self)
        ensures
            r.conditions@ == self.conditions@.push(condition),
            r.sort@ == self.sort@,
            r.limit == self.limit,
            r.offset == self.offset,
    {
        let mut c = self;
        c.conditions.push(condition);
        c
    }

    /// Adds a sort order to the filter.
    pub fn with_sort(self, sort: SortOrder) -> (r: Self)
        ensures
            r.conditions@ == self.conditions@,
            r.sort@ == self.sort@.push(sort),
            r.limit == self.limit,
            r.offset == self.offset,
    {
        let mut c = self;
        c.sort.push(sort);
        c
    }

    /// Sets the limit for the filter.
    pub fn with_limit(self, limit: i64) -> (r: Self)
        ensures
            r.conditions@ == self.conditions@,
            r.sort@ == self.sort@,
            r.limit == Some(limit),
            r.offset == self.offset,
    {
        let mut c = self;
        c.limit = Some(limit);
        c
    }

    /// Sets the offset for the filter.
    pub fn with_offset(self, offset: i64) -> (r: Self)
        ensures
            r.conditions@ == self.conditions@,
            r.sort@ == self.sort@,
            r.limit == self.limit,
            r.offset == Some(offset),
    {
        let mut c = self;
        c.offset = Some(offset);
        c
    }
}

impl Default for FilterCriteria {
    fn default() -> (r: Self)
        ensures
            r.conditions@.len() == 0,
            r.sort@.len() == 0,
            r.limit is None,
            r.offset is None,
    {
        FilterCriteria::new()
    }
}

/// A single filter condition.
#[derive(Debug, Clone)]
pub struct Condition {
    /// The field name to filter on.
    pub field: String,
    /// The operator to apply.
    pub operator: Operator,
    /// The value to compare against.
    pub value: ConditionValue,
}

impl Condition {
    /// Creates a new condition.
    pub fn new(field: &str, operator: Operator, value: ConditionValue) -> (r: Self)
        ensures
            r.field@ == field@,
            r.operator == operator,
            r.value == value,
    {
        Condition { field: String::from_str(field), operator, value }
    }

    /// Creates an equality condition.
    pub fn eq(field: &str, value: ConditionValue) -> (r: Self)
        ensures
            r.field@ == field@,
            r.operator == Operator::Equal,
            r.value == value,
    {
        Self::new(field, Operator::Equal, value)
    }

    /// Creates a not-equal condition.
    pub fn ne(field: &str, value: ConditionValue) -> (r: Self)
        ensures
            r.field@ == field@,
            r.operator == Operator::NotEqual,
            r.value == value,
    {
        Self::new(field, Operator::NotEqual, value)
    }

    /// Creates a greater-than condition.
    pub fn gt(field: &str, value: ConditionValue) -> (r: Self)
        ensures
            r.field@ == field@,
            r.operator == Operator::GreaterThan,
            r.value == value,
    {
        Self::new(field, Operator::GreaterThan, value)
    }

    /// Creates a less-than condition.
    pub fn lt(field: &str, value: ConditionValue) -> (r: Self)
        ensures
            r.field@ == field@,
            r.operator == Operator::LessThan,
            r.value == value,
    {
        Self::new(field, Operator::LessThan, value)
    }

    /// Creates an IN condition.
    pub fn in_list(field: &str, values: Vec<ConditionValue>) -> (r: Self)
        ensures
            r.field@ == field@,
            r.operator == Operator::In,
            r.value == ConditionValue::List(values),
    {
        Self::new(field, Operator::In, ConditionValue::List(values))
    }
}

/// Comparison operators for filter conditions.
#[derive(Debug, Clone, Copy, PartialEq, Eq, Structural)]
pub enum Operator {
    Equal,
    NotEqual,
    GreaterThan,
    GreaterThanOrEqual,
    LessThan,
    LessThanOrEqual,
    Like,
    In,
    IsNull,
    IsNotNull,
}

/// Values used in filter conditions.
#[derive(Debug)]
pub enum ConditionValue {
    String(String),
    Integer(i64),
    /// A 64-bit float, held as its decimal rendering (what `f64`'s
    /// `to_string` writes), which is all that a query reads of it.
    Float(String),
    Boolean(bool),
    List(Vec<ConditionValue>),
    Null,
}

impl Clone for ConditionValue {
    /// A copy that holds the same values, nested lists included.
    fn clone(&self) -> (r: Self)
        ensures
            value_text(r) == value_text(*self),
            value_size(r) == value_size(*self),
        decreases value_size(*self),
    {
        match self {
            ConditionValue::String(s) => ConditionValue::String(s.clone()),
            ConditionValue::Integer(i) => ConditionValue::Integer(*i),
            ConditionValue::Float(t) => ConditionValue::Float(t.clone()),
            ConditionValue::Boolean(b) => ConditionValue::Boolean(*b),
            ConditionValue::Null => ConditionValue::Null,
            ConditionValue::List(vs) => {
                let n = vs.len();
                let mut out: Vec<ConditionValue> = Vec::new();
                let mut i: usize = 0;
                while i < n
                    invariant
                        n == vs@.len(),
                        i <= n,
                        out@.len() == i,
                        *self == ConditionValue::List(*vs),
                        list_text(out, i as nat) == list_text(*vs, i as nat),
                        list_size(out, i as nat) == list_size(*vs, i as nat),
                    decreases n - i,
                {
                    proof {
                        lemma_element_smaller(*vs, i as int, n as nat);
                    }
                    let e = vs[i].clone();
                    let ghost before = out;
                    out.push(e);
                    proof {
                        lemma_list_prefix_stable(before, out, i as nat);
                    }
                    i = i + 1;
                }
                ConditionValue::List(out)
            },
        }
    }
}

impl From<String> for ConditionValue {
    fn from(s: String) -> (r: Self) {
        ConditionValue::String(s)
    }
}

impl vstd::std_specs::convert::FromSpecImpl<String> for ConditionValue {
    open spec fn obeys_from_spec() -> bool {
        true
    }

    open spec fn from_spec(s: String) -> Self {
        ConditionValue::String(s)
    }
}

impl From<&str> for ConditionValue {
    fn from(s: &str) -> (r: Self)
        ensures
            r matches ConditionValue::String(t) && t@ == s@,
    {
        ConditionValue::String(String::from_str(s))
    }
}

impl vstd::std_specs::convert::FromSpecImpl<&str> for ConditionValue {
    /// A `String` is not a spec value, so `from_spec` cannot name the one that
    /// `from` builds; the `ensures` of `from` says what it holds.
    open spec fn obeys_from_spec() -> bool {
        false
    }

    open spec fn from_spec(s: &str) -> Self {
        ConditionValue::Null
    }
}

impl From<i64> for ConditionValue {
    fn from(i: i64) -> (r: Self) {
        ConditionValue::Integer(i)
    }
}

impl vstd::std_specs::convert::FromSpecImpl<i64> for ConditionValue {
    open spec fn obeys_from_spec() -> bool {
        true
    }

    open spec fn from_spec(i: i64) -> Self {
        ConditionValue::Integer(i)
    }
}

impl From<i32> for ConditionValue {
    fn from(i: i32) -> (r: Self) {
        ConditionValue::Integer(i as i64)
    }
}

impl vstd::std_specs::convert::FromSpecImpl<i32> for ConditionValue {
    open spec fn obeys_from_spec() -> bool {
        true
    }

    open spec fn from_spec(i: i32) -> Self {
        ConditionValue::Integer(i as i64)
    }
}

impl From<bool> for ConditionValue {
    fn from(b: bool) -> (r: Self) {
        ConditionValue::Boolean(b)
    }
}

impl vstd::std_specs::convert::FromSpecImpl<bool> for ConditionValue {
    open spec fn obeys_from_spec() -> bool {
        true
    }

    open spec fn from_spec(b: bool) -> Self {
        ConditionValue::Boolean(b)
    }
}

/// A sort key: a field and a direction.
#[derive(Debug, Clone)]
pub struct SortOrder {
    pub field: String,
    pub direction: SortDirection,
}

impl SortOrder {
    pub fn new(field: &str, direction: SortDirection) -> (r: Self)
        ensures
            r.field@ == field@,
            r.direction == direction,
    {
        SortOrder { field: String::from_str(field), direction }
    }

    pub fn asc(field: &str) -> (r: Self)
        ensures
            r.field@ == field@,
            r.direction == SortDirection::Ascending,
    {
        Self::new(field, SortDirection::Ascending)
    }

    pub fn desc(field: &str) -> (r: Self)
        ensures
            r.field@ == field@,
            r.direction == SortDirection::Descending,
    {
        Self::new(field, SortDirection::Descending)
    }
}

/// Sort direction.
#[derive(Debug, Clone, Copy, PartialEq, Eq, Structural)]
pub enum SortDirection {
    Ascending,
    Descending,
}

/// Pagination parameters: a 1-based page number and a page size. Neither is
/// validated; keeping them positive is the caller's part.
#[derive(Debug, Clone, Copy)]
pub struct Pagination {
    pub page: i64,
    pub per_page: i64,
}

impl Pagination {
    pub fn new(page: i64, per_page: i64) -> (r: Self)
        ensures
            r.page == page,
            r.per_page == per_page,
    {
        Pagination { page, per_page }
    }

    /// The number of rows before this page: `(page - 1) * per_page`.
    pub fn offset(&self) -> (r: i64)
        requires
            i64::MIN <= (self.page - 1) * self.per_page <= i64::MAX,
        ensures
            r == (self.page - 1) * self.per_page,
    {
        let before: i128 = self.page as i128 - 1;
        let per: i128 = self.per_page as i128;
        proof {
            let a: int = 0x8000_0000_0000_0001;
            let b: int = 0x8000_0000_0000_0000;
            assert(-(a * b) <= before * per <= a * b) by (nonlinear_arith)
                requires
                    -a <= before <= a,
                    -b <= per <= b,
                    a >= 0,
                    b >= 0,
            ;
            assert(a * b < i128::MAX);
        }
        (before * per) as i64
    }

    /// The number of rows on a page.
    pub fn limit(&self) -> (r: i64)
        ensures
            r == self.per_page,
    {
        self.per_page
    }
}

impl Default for Pagination {
    fn default() -> (r: Self)
        ensures
            r.page == 1,
            r.per_page == 20,
    {
        Pagination { page: 1, per_page: 20 }
    }
}

/// `(total + per_page - 1) / per_page`, with the division truncating toward
/// zero as machine division does.
pub open spec fn page_count(total: int, per_page: int) -> int {
    let n = total + per_page - 1;
    if n >= 0 {
        n / per_page
    } else {
        -((-n) / per_page)
    }
}

/// A page of results with metadata.
#[derive(Debug, Clone)]
pub struct Page<T> {
    pub items: Vec<T>,
    pub page: i64,
    pub per_page: i64,
    pub total_items: i64,
    pub total_pages: i64,
}

impl<T> Page<T> {
    /// Wraps one page of items; `total_pages` is the ceiling of
    /// `total_items / per_page`.
    pub fn new(items: Vec<T>, page: i64, per_page: i64, total_items: i64) -> (r: Self)
        requires
            per_page >= 1,
        ensures
            r.items@ == items@,
            r.page == page,
            r.per_page == per_page,
            r.total_items == total_items,
            r.total_pages == page_count(total_items as int, per_page as int),
    {
        let n: i128 = total_items as i128 + per_page as i128 - 1;
        let p: i128 = per_page as i128;
        let q: i128 = if n >= 0 {
            n / p
        } else {
            0 - (0 - n) / p
        };
        proof {
            let m: int = if n >= 0 { n as int } else { -(n as int) };
            assert(0 <= m / (p as int) <= m) by (nonlinear_arith)
                requires m >= 0, p >= 1;
            if n > i64::MAX {
                assert((n as int) / (p as int) <= i64::MAX) by (nonlinear_arith)
                    requires n <= i64::MAX + p - 1, p >= 2, n >= 0;
            }
        }
        Page { items, page, per_page, total_items, total_pages: q as i64 }
    }

    pub fn has_next(&self) -> (r: bool)
        ensures
            r == (self.page < self.total_pages),
    {
        self.page < self.total_pages
    }

    pub fn has_previous(&self) -> (r: bool)
        ensures
            r == (self.page > 1),
    {
        self.page > 1
    }

    pub fn next_page(&self) -> (r: Option<i64>)
        ensures
            r == (if self.page < self.total_pages {
                Some((self.page + 1) as i64)
            } else {
                None
            }),
    {
        if self.has_next() {
            Some(self.page + 1)
        } else {
            None
        }
    }

    pub fn previous_page(&self) -> (r: Option<i64>)
        ensures
            r == (if self.page > 1 {
                Some((self.page - 1) as i64)
            } else {
                None
            }),
    {
        if self.has_previous() {
            Some(self.page - 1)
        } else {
            None
        }
    }
}

/// For a non-negative item count and a positive page size, the page count is
/// the ceiling of their quotient: enough pages to hold every item, and one
/// fewer would not.
pub proof fn lemma_page_count_is_ceiling(total: int, per_page: int)
    requires
        total >= 0,
        per_page >= 1,
    ensures
        page_count(total, per_page) >= 0,
        page_count(total, per_page) * per_page >= total,
        (page_count(total, per_page) - 1) * per_page < total,
{
    let n = total + per_page - 1;
    let q = n / per_page;
    assert(q * per_page <= n < q * per_page + per_page) by (nonlinear_arith)
        requires per_page >= 1, q == n / per_page, n >= 0;
    assert(q >= 0) by (nonlinear_arith)
        requires per_page >= 1, q == n / per_page, n >= 0;
    assert((q - 1) * per_page == q * per_page - per_page) by (nonlinear_arith);
}

} // verus!
