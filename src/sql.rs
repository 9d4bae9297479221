//! Translation of filter criteria into SQL text for a relational backend.
//!
//! Values are written into the text as literals: strings are quoted with each
//! quote doubled. Table and field names go in verbatim; they must come from a
//! trusted source.
use vstd::prelude::*;

use crate::query::{Condition, ConditionValue, FilterCriteria, Operator, SortDirection, SortOrder};
use crate::text::{
    clean_seam, count_char, has_pair, int_text, int_to_text, join, lemma_int_text_chars,
    lemma_occurrences_add, lemma_occurrences_join, lemma_occurrences_none, lemma_occurrences_self,
    lemma_quoted_literal, occurrences, quote_text, quoted, without_quotes,
};

verus! {

broadcast use vstd::std_specs::vec::group_vec_axioms;

/// The literal text of a value. A list is its elements' texts, separated by
/// `, ` and wrapped in parentheses.
pub open spec fn value_text(v: ConditionValue) -> Seq<char>
    decreases v, 0nat,
{
    match v {
        ConditionValue::String(s) => quoted(s@),
        ConditionValue::Integer(i) => int_text(i as int),
        ConditionValue::Float(t) => t@,
        ConditionValue::Boolean(b) => if b {
            "TRUE"@
        } else {
            "FALSE"@
        },
        ConditionValue::Null => "NULL"@,
        ConditionValue::List(vs) => "("@ + list_text(vs, vs@.len()) + ")"@,
    }
}

/// The texts of the first `n` elements of `vs`, separated by `, `.
pub open spec fn list_text(vs: Vec<ConditionValue>, n: nat) -> Seq<char>
    decreases vs, n,
{
    if n == 0 || n > vs@.len() {
        Seq::empty()
    } else if n == 1 {
        value_text(vs@[0])
    } else {
        list_text(vs, (n - 1) as nat) + ", "@ + value_text(vs@[n - 1])
    }
}

/// The number of values nested in `v`, itself included.
pub open spec fn value_size(v: ConditionValue) -> nat
    decreases v, 0nat,
{
    match v {
        ConditionValue::List(vs) => 1 + list_size(vs, vs@.len()),
        _ => 1,
    }
}

/// The sizes of the first `n` elements of `vs`, summed.
pub open spec fn list_size(vs: Vec<ConditionValue>, n: nat) -> nat
    decreases vs, n,
{
    if n == 0 || n > vs@.len() {
        0
    } else {
        list_size(vs, (n - 1) as nat) + value_size(vs@[n - 1])
    }
}

/// Pushing onto a list leaves the text and size of its first `n` elements as
/// they were.
pub proof fn lemma_list_prefix_stable(before: Vec<ConditionValue>, after: Vec<ConditionValue>, n: nat)
    requires
        n <= before@.len(),
        after@.len() == before@.len() + 1,
        forall|j: int| 0 <= j < before@.len() ==> after@[j] == before@[j],
    ensures
        list_text(after, n) == list_text(before, n),
        list_size(after, n) == list_size(before, n),
    decreases n,
{
    if n > 0 {
        lemma_list_prefix_stable(before, after, (n - 1) as nat);
    }
}

/// An element of a list is smaller than the list.
pub proof fn lemma_element_smaller(vs: Vec<ConditionValue>, i: int, n: nat)
    requires
        0 <= i < n <= vs@.len(),
    ensures
        value_size(vs@[i]) <= list_size(vs, n),
    decreases n,
{
    if i < n - 1 {
        lemma_element_smaller(vs, i, (n - 1) as nat);
    }
}

/// The text between field and value of a binary comparison.
pub open spec fn comparison_text(op: Operator) -> Seq<char> {
    match op {
        Operator::Equal => " = "@,
        Operator::NotEqual => " != "@,
        Operator::GreaterThan => " > "@,
        Operator::GreaterThanOrEqual => " >= "@,
        Operator::LessThan => " < "@,
        Operator::LessThanOrEqual => " <= "@,
        Operator::Like => " ILIKE "@,
        Operator::In => " IN "@,
        Operator::IsNull => " IS NULL"@,
        Operator::IsNotNull => " IS NOT NULL"@,
    }
}

/// The text of one condition. The null tests ignore the value; `In` on a
/// value that is not a list is an equality.
pub open spec fn clause_text(c: Condition) -> Seq<char> {
    match c.operator {
        Operator::IsNull => c.field@ + " IS NULL"@,
        Operator::IsNotNull => c.field@ + " IS NOT NULL"@,
        Operator::In => if c.value is List {
            c.field@ + " IN "@ + value_text(c.value)
        } else {
            c.field@ + " = "@ + value_text(c.value)
        },
        _ => c.field@ + comparison_text(c.operator) + value_text(c.value),
    }
}

/// The texts of the conditions, joined with ` AND `.
pub open spec fn conditions_text(conds: Seq<Condition>) -> Seq<char> {
    join(conds.map_values(|c: Condition| clause_text(c)), " AND "@)
}

/// One sort key: the field and its direction.
pub open spec fn sort_text(s: SortOrder) -> Seq<char> {
    s.field@ + match s.direction {
        SortDirection::Ascending => " ASC"@,
        SortDirection::Descending => " DESC"@,
    }
}

/// The WHERE clause, empty where there are no conditions.
pub open spec fn where_part(conds: Seq<Condition>) -> Seq<char> {
    if conds.len() == 0 {
        Seq::empty()
    } else {
        " WHERE "@ + conditions_text(conds)
    }
}

/// The ORDER BY clause, empty where there are no sort keys.
pub open spec fn order_part(sorts: Seq<SortOrder>) -> Seq<char> {
    if sorts.len() == 0 {
        Seq::empty()
    } else {
        " ORDER BY "@ + join(sorts.map_values(|s: SortOrder| sort_text(s)), ", "@)
    }
}

/// A LIMIT or OFFSET clause, empty where the number is absent.
pub open spec fn number_part(keyword: Seq<char>, n: Option<i64>) -> Seq<char> {
    match n {
        Some(k) => keyword + int_text(k as int),
        None => Seq::empty(),
    }
}

/// The full SELECT query text.
pub open spec fn select_text(table: Seq<char>, c: FilterCriteria) -> Seq<char> {
    "SELECT * FROM "@ + table + where_part(c.conditions@) + order_part(c.sort@) + number_part(
        " LIMIT "@,
        c.limit,
    ) + number_part(" OFFSET "@, c.offset)
}

/// The COUNT query text: the conditions alone.
pub open spec fn count_text(table: Seq<char>, c: FilterCriteria) -> Seq<char> {
    "SELECT COUNT(*) FROM "@ + table + where_part(c.conditions@)
}

/// A string value is written as a literal that starts and ends with a quote,
/// holds twice the quotes of the string plus two, and, quotes aside, holds the
/// string unchanged.
pub proof fn lemma_string_value_text(s: String)
    ensures
        value_text(ConditionValue::String(s)).len() >= 2,
        value_text(ConditionValue::String(s))[0] == '\'',
        value_text(ConditionValue::String(s)).last() == '\'',
        count_char(value_text(ConditionValue::String(s)), '\'') == 2 * count_char(s@, '\'') + 2,
        without_quotes(value_text(ConditionValue::String(s))) == without_quotes(s@),
{
    lemma_quoted_literal(s@);
}

/// A COUNT query depends on the table and the conditions alone: sort keys,
/// limit and offset change nothing in it.
pub proof fn lemma_count_ignores_sort_and_paging(table: Seq<char>, a: FilterCriteria, b: FilterCriteria)
    requires
        a.conditions@ == b.conditions@,
    ensures
        count_text(table, a) == count_text(table, b),
{
}

/// LIMIT and OFFSET come last, in that order, after whatever WHERE and ORDER
/// BY clauses the criteria give.
pub proof fn lemma_limit_offset_at_end(
    table: Seq<char>,
    a: FilterCriteria,
    b: FilterCriteria,
    limit: i64,
    offset: i64,
)
    requires
        a.conditions@ == b.conditions@,
        a.sort@ == b.sort@,
        a.limit == Some(limit),
        a.offset == Some(offset),
        b.limit is None,
        b.offset is None,
    ensures
        select_text(table, a) == select_text(table, b) + " LIMIT "@ + int_text(limit as int)
            + " OFFSET "@ + int_text(offset as int),
{
    assert(select_text(table, a) =~= select_text(table, b) + " LIMIT "@ + int_text(limit as int)
        + " OFFSET "@ + int_text(offset as int));
}

/// `p` holds no space and no comma.
pub open spec fn plain_word(p: Seq<char>) -> bool {
    &&& p.len() >= 2
    &&& forall|k: int| 0 <= k < p.len() ==> #[trigger] p[k] != ' ' && p[k] != ','
}

/// A text that ends, or whose neighbour starts, with a space meets it at a
/// seam that no plain word spans.
proof fn lemma_space_seam(a: Seq<char>, b: Seq<char>, p: Seq<char>)
    requires
        plain_word(p),
        a.len() == 0 || b.len() == 0 || a.last() == ' ' || b[0] == ' ',
    ensures
        clean_seam(a, b, p),
{
    if a.len() > 0 && b.len() > 0 && has_pair(p, a.last(), b[0]) {
        let k = choose|k: int| 0 <= k < p.len() - 1 && #[trigger] p[k] == a.last() && p[k + 1] == b[0];
        assert(p[k] != ' ' && p[k + 1] != ' ');
    }
}

/// A plain word that starts with neither a digit nor a minus sign does not
/// occur in a numeral.
proof fn lemma_numeral_free(i: int, p: Seq<char>)
    requires
        plain_word(p),
        p[0] != '-',
        !crate::text::digits().contains(p[0]),
    ensures
        occurrences(int_text(i), p) == 0,
{
    lemma_int_text_chars(i);
    let t = int_text(i);
    assert forall|j: int| 0 <= j < t.len() - 1 implies !(#[trigger] t[j] == p[0] && t[j + 1] == p[1]) by {
        assert(t[j] == '-' || crate::text::digits().contains(t[j]));
    }
    lemma_occurrences_none(t, p, 0);
}

/// The occurrences of a plain word in the WHERE clause: those of ` WHERE `,
/// and those of ` AND ` once between each two conditions, where no condition
/// holds it.
proof fn lemma_where_part_occurrences(conds: Seq<Condition>, p: Seq<char>)
    requires
        plain_word(p),
        forall|i: int| 0 <= i < conds.len() ==> occurrences(clause_text(#[trigger] conds[i]), p) == 0,
    ensures
        occurrences(where_part(conds), p) == if conds.len() == 0 {
            0
        } else {
            occurrences(" WHERE "@, p) + (conds.len() - 1) * occurrences(" AND "@, p)
        },
{
    if conds.len() > 0 {
        reveal_strlit(" WHERE ");
        reveal_strlit(" AND ");
        let parts = conds.map_values(|c: Condition| clause_text(c));
        assert forall|i: int| 0 <= i < parts.len() implies occurrences(#[trigger] parts[i], p) == 0 by {
            assert(parts[i] == clause_text(conds[i]));
        }
        let sep = " AND "@;
        assert forall|x: char| !has_pair(p, x, sep[0]) by {
            if has_pair(p, x, sep[0]) {
                let k = choose|k: int| 0 <= k < p.len() - 1 && #[trigger] p[k] == x && p[k + 1] == sep[0];
                assert(p[k + 1] != ' ');
            }
        }
        assert forall|y: char| !has_pair(p, sep.last(), y) by {
            if has_pair(p, sep.last(), y) {
                let k = choose|k: int| 0 <= k < p.len() - 1 && #[trigger] p[k] == sep.last() && p[k + 1] == y;
                assert(p[k] != ' ');
            }
        }
        lemma_occurrences_join(parts, sep, p);
        lemma_space_seam(" WHERE "@, join(parts, sep), p);
        lemma_occurrences_add(" WHERE "@, join(parts, sep), p);
    }
}

/// The occurrences of a plain word in the ORDER BY clause: those of
/// ` ORDER BY `, where no sort key holds it.
proof fn lemma_order_part_occurrences(sorts: Seq<SortOrder>, p: Seq<char>)
    requires
        plain_word(p),
        forall|i: int| 0 <= i < sorts.len() ==> occurrences(sort_text(#[trigger] sorts[i]), p) == 0,
    ensures
        occurrences(order_part(sorts), p) == if sorts.len() == 0 {
            0
        } else {
            occurrences(" ORDER BY "@, p)
        },
{
    if sorts.len() > 0 {
        reveal_strlit(" ORDER BY ");
        reveal_strlit(", ");
        let parts = sorts.map_values(|s: SortOrder| sort_text(s));
        assert forall|i: int| 0 <= i < parts.len() implies occurrences(#[trigger] parts[i], p) == 0 by {
            assert(parts[i] == sort_text(sorts[i]));
        }
        let sep = ", "@;
        assert forall|x: char| !has_pair(p, x, sep[0]) by {
            if has_pair(p, x, sep[0]) {
                let k = choose|k: int| 0 <= k < p.len() - 1 && #[trigger] p[k] == x && p[k + 1] == sep[0];
                assert(p[k + 1] != ',');
            }
        }
        assert forall|y: char| !has_pair(p, sep.last(), y) by {
            if has_pair(p, sep.last(), y) {
                let k = choose|k: int| 0 <= k < p.len() - 1 && #[trigger] p[k] == sep.last() && p[k + 1] == y;
                assert(p[k] != ' ');
            }
        }
        lemma_occurrences_join(parts, sep, p);
        assert(occurrences(sep, p) == 0) by {
            assert forall|j: int| 0 <= j < sep.len() - 1 implies !(#[trigger] sep[j] == p[0] && sep[j + 1] == p[1]) by {
                assert(p[0] != ',');
            }
            lemma_occurrences_none(sep, p, 0);
        }
        lemma_space_seam(" ORDER BY "@, join(parts, sep), p);
        lemma_occurrences_add(" ORDER BY "@, join(parts, sep), p);
    }
}

/// The occurrences of a plain word in a LIMIT or OFFSET clause: those of the
/// keyword, the numeral holding none.
proof fn lemma_number_part_occurrences(keyword: Seq<char>, n: Option<i64>, p: Seq<char>)
    requires
        plain_word(p),
        p[0] != '-',
        !crate::text::digits().contains(p[0]),
        keyword.len() > 0,
        keyword.last() == ' ',
    ensures
        occurrences(number_part(keyword, n), p) == if n is Some {
            occurrences(keyword, p)
        } else {
            0
        },
{
    if let Some(k) = n {
        lemma_numeral_free(k as int, p);
        lemma_space_seam(keyword, int_text(k as int), p);
        lemma_occurrences_add(keyword, int_text(k as int), p);
    }
}

/// The occurrences of a plain word in a SELECT query are those in each of its
/// parts.
proof fn lemma_select_occurrences(table: Seq<char>, c: FilterCriteria, p: Seq<char>)
    requires
        plain_word(p),
    ensures
        occurrences(select_text(table, c), p) == occurrences("SELECT * FROM "@, p) + occurrences(
            table,
            p,
        ) + occurrences(where_part(c.conditions@), p) + occurrences(order_part(c.sort@), p)
            + occurrences(number_part(" LIMIT "@, c.limit), p) + occurrences(
            number_part(" OFFSET "@, c.offset),
            p,
        ),
{
    reveal_strlit("SELECT * FROM ");
    reveal_strlit(" WHERE ");
    reveal_strlit(" ORDER BY ");
    reveal_strlit(" LIMIT ");
    reveal_strlit(" OFFSET ");
    let s0 = "SELECT * FROM "@;
    let w = where_part(c.conditions@);
    let o = order_part(c.sort@);
    let l = number_part(" LIMIT "@, c.limit);
    let f = number_part(" OFFSET "@, c.offset);
    assert(w.len() == 0 || w[0] == ' ');
    assert(o.len() == 0 || o[0] == ' ');
    assert(l.len() == 0 || l[0] == ' ');
    assert(f.len() == 0 || f[0] == ' ');
    lemma_space_seam(s0, table, p);
    lemma_occurrences_add(s0, table, p);
    lemma_space_seam(s0 + table, w, p);
    lemma_occurrences_add(s0 + table, w, p);
    lemma_space_seam(s0 + table + w, o, p);
    lemma_occurrences_add(s0 + table + w, o, p);
    lemma_space_seam(s0 + table + w + o, l, p);
    lemma_occurrences_add(s0 + table + w + o, l, p);
    lemma_space_seam(s0 + table + w + o + l, f, p);
    lemma_occurrences_add(s0 + table + w + o + l, f, p);
}

/// Where neither the table name, nor any condition's text, nor any sort key
/// holds the words WHERE or AND, a SELECT query holds WHERE once if there are
/// conditions and not at all otherwise, and AND once between each two
/// neighbouring conditions.
pub proof fn lemma_select_where_and(table: Seq<char>, c: FilterCriteria)
    requires
        occurrences(table, "WHERE"@) == 0,
        occurrences(table, "AND"@) == 0,
        forall|i: int|
            0 <= i < c.conditions@.len() ==> occurrences(clause_text(#[trigger] c.conditions@[i]), "WHERE"@)
                == 0 && occurrences(clause_text(c.conditions@[i]), "AND"@) == 0,
        forall|i: int|
            0 <= i < c.sort@.len() ==> occurrences(sort_text(#[trigger] c.sort@[i]), "WHERE"@) == 0
                && occurrences(sort_text(c.sort@[i]), "AND"@) == 0,
    ensures
        occurrences(select_text(table, c), "WHERE"@) == if c.conditions@.len() == 0 {
            0nat
        } else {
            1nat
        },
        occurrences(select_text(table, c), "AND"@) == if c.conditions@.len() == 0 {
            0int
        } else {
            c.conditions@.len() - 1
        },
{
    reveal_strlit("WHERE");
    reveal_strlit("AND");
    reveal_strlit("SELECT * FROM ");
    reveal_strlit(" WHERE ");
    reveal_strlit(" AND ");
    reveal_strlit(" ORDER BY ");
    reveal_strlit(" LIMIT ");
    reveal_strlit(" OFFSET ");
    let wh = "WHERE"@;
    let an = "AND"@;
    assert(wh =~= seq!['W', 'H', 'E', 'R', 'E']);
    assert(an =~= seq!['A', 'N', 'D']);
    assert(plain_word(wh));
    assert(plain_word(an));
    assert(!crate::text::digits().contains(wh[0]));
    assert(!crate::text::digits().contains(an[0]));
    let s0 = "SELECT * FROM "@;
    assert(s0 =~= seq!['S', 'E', 'L', 'E', 'C', 'T', ' ', '*', ' ', 'F', 'R', 'O', 'M', ' ']);
    let sw = " WHERE "@;
    assert(sw =~= seq![' ', 'W', 'H', 'E', 'R', 'E', ' ']);
    let sa = " AND "@;
    assert(sa =~= seq![' ', 'A', 'N', 'D', ' ']);
    let so = " ORDER BY "@;
    assert(so =~= seq![' ', 'O', 'R', 'D', 'E', 'R', ' ', 'B', 'Y', ' ']);
    let sl = " LIMIT "@;
    assert(sl =~= seq![' ', 'L', 'I', 'M', 'I', 'T', ' ']);
    let sf = " OFFSET "@;
    assert(sf =~= seq![' ', 'O', 'F', 'F', 'S', 'E', 'T', ' ']);
    // Each literal that lacks the word's first two letters side by side.
    lemma_occurrences_none(s0, wh, 0);
    lemma_occurrences_none(s0, an, 0);
    lemma_occurrences_none(sw, an, 0);
    lemma_occurrences_none(sa, wh, 0);
    lemma_occurrences_none(so, wh, 0);
    lemma_occurrences_none(so, an, 0);
    lemma_occurrences_none(sl, wh, 0);
    lemma_occurrences_none(sl, an, 0);
    lemma_occurrences_none(sf, wh, 0);
    lemma_occurrences_none(sf, an, 0);
    // The two literals that hold the word once.
    lemma_occurrences_self(wh);
    lemma_occurrences_self(an);
    lemma_occurrences_none(seq![' '], wh, 0);
    lemma_occurrences_none(seq![' '], an, 0);
    lemma_space_seam(seq![' '], wh, wh);
    lemma_occurrences_add(seq![' '], wh, wh);
    lemma_space_seam(seq![' '] + wh, seq![' '], wh);
    lemma_occurrences_add(seq![' '] + wh, seq![' '], wh);
    assert(sw =~= seq![' '] + wh + seq![' ']);
    lemma_space_seam(seq![' '], an, an);
    lemma_occurrences_add(seq![' '], an, an);
    lemma_space_seam(seq![' '] + an, seq![' '], an);
    lemma_occurrences_add(seq![' '] + an, seq![' '], an);
    assert(sa =~= seq![' '] + an + seq![' ']);
    assert(occurrences(sw, wh) == 1);
    assert(occurrences(sa, an) == 1);

    lemma_select_occurrences(table, c, wh);
    lemma_where_part_occurrences(c.conditions@, wh);
    lemma_order_part_occurrences(c.sort@, wh);
    lemma_number_part_occurrences(sl, c.limit, wh);
    lemma_number_part_occurrences(sf, c.offset, wh);

    lemma_select_occurrences(table, c, an);
    lemma_where_part_occurrences(c.conditions@, an);
    lemma_order_part_occurrences(c.sort@, an);
    lemma_number_part_occurrences(sl, c.limit, an);
    lemma_number_part_occurrences(sf, c.offset, an);
}

/// Where neither the table name nor any condition's text holds the words
/// ORDER, LIMIT or OFFSET, a COUNT query holds none of them either, whatever
/// sort keys, limit and offset the criteria carry.
pub proof fn lemma_count_has_no_paging_words(table: Seq<char>, c: FilterCriteria)
    requires
        occurrences(table, "ORDER"@) == 0,
        occurrences(table, "LIMIT"@) == 0,
        occurrences(table, "OFFSET"@) == 0,
        forall|i: int|
            0 <= i < c.conditions@.len() ==> occurrences(clause_text(#[trigger] c.conditions@[i]), "ORDER"@)
                == 0 && occurrences(clause_text(c.conditions@[i]), "LIMIT"@) == 0 && occurrences(
                clause_text(c.conditions@[i]),
                "OFFSET"@,
            ) == 0,
    ensures
        occurrences(count_text(table, c), "ORDER"@) == 0,
        occurrences(count_text(table, c), "LIMIT"@) == 0,
        occurrences(count_text(table, c), "OFFSET"@) == 0,
{
    reveal_strlit("ORDER");
    reveal_strlit("LIMIT");
    reveal_strlit("OFFSET");
    reveal_strlit("SELECT COUNT(*) FROM ");
    reveal_strlit(" WHERE ");
    reveal_strlit(" AND ");
    let s0 = "SELECT COUNT(*) FROM "@;
    assert(s0 =~= seq![
        'S', 'E', 'L', 'E', 'C', 'T', ' ', 'C', 'O', 'U', 'N', 'T', '(', '*', ')', ' ', 'F', 'R',
        'O', 'M', ' ',
    ]);
    let sw = " WHERE "@;
    assert(sw =~= seq![' ', 'W', 'H', 'E', 'R', 'E', ' ']);
    let sa = " AND "@;
    assert(sa =~= seq![' ', 'A', 'N', 'D', ' ']);
    let w = where_part(c.conditions@);
    assert(w.len() == 0 || w[0] == ' ');
    let words = seq!["ORDER"@, "LIMIT"@, "OFFSET"@];
    assert("ORDER"@ =~= seq!['O', 'R', 'D', 'E', 'R']);
    assert("LIMIT"@ =~= seq!['L', 'I', 'M', 'I', 'T']);
    assert("OFFSET"@ =~= seq!['O', 'F', 'F', 'S', 'E', 'T']);
    assert forall|m: int| 0 <= m < 3 implies occurrences(count_text(table, c), #[trigger] words[m])
        == 0 by {
        let p = words[m];
        assert(plain_word(p));
        lemma_occurrences_none(s0, p, 0);
        lemma_occurrences_none(sw, p, 0);
        lemma_occurrences_none(sa, p, 0);
        lemma_where_part_occurrences(c.conditions@, p);
        lemma_space_seam(s0, table, p);
        lemma_occurrences_add(s0, table, p);
        lemma_space_seam(s0 + table, w, p);
        lemma_occurrences_add(s0 + table, w, p);
    }
    assert(words[0] == "ORDER"@);
    assert(words[1] == "LIMIT"@);
    assert(words[2] == "OFFSET"@);
}

/// Builds SQL query text from filter criteria.
pub struct SqlxAdapter;

impl SqlxAdapter {
    /// Builds a SELECT query with WHERE, ORDER BY, LIMIT, and OFFSET clauses,
    /// in that order, each only where the criteria have it.
    pub fn build_select_query(table_name: &str, criteria: &FilterCriteria) -> (r: String)
        ensures
            r@ == select_text(table_name@, *criteria),
    {
        let mut query = String::from_str("SELECT * FROM ");
        query.append(table_name);
        let w = Self::build_where_part(criteria);
        query.append(w.as_str());
        let o = Self::build_order_part(criteria);
        query.append(o.as_str());
        let l = Self::build_number_part(" LIMIT ", criteria.limit);
        query.append(l.as_str());
        let f = Self::build_number_part(" OFFSET ", criteria.offset);
        query.append(f.as_str());
        query
    }

    /// The WHERE clause with its leading space, or nothing.
    fn build_where_part(criteria: &FilterCriteria) -> (r: String)
        ensures
            r@ == where_part(criteria.conditions@),
    {
        let mut out = String::new();
        if criteria.conditions.len() > 0 {
            let where_clause = Self::build_where_clause(criteria);
            out.append(" WHERE ");
            out.append(where_clause.as_str());
        }
        out
    }

    /// The ORDER BY clause with its leading space, or nothing.
    fn build_order_part(criteria: &FilterCriteria) -> (r: String)
        ensures
            r@ == order_part(criteria.sort@),
    {
        let mut out = String::new();
        if criteria.sort.len() > 0 {
            let order_clause = Self::build_order_clause(criteria);
            out.append(" ORDER BY ");
            out.append(order_clause.as_str());
        }
        out
    }

    /// `keyword` and the number, or nothing where there is no number.
    fn build_number_part(keyword: &str, n: Option<i64>) -> (r: String)
        ensures
            r@ == number_part(keyword@, n),
    {
        let mut out = String::new();
        if let Some(k) = n {
            out.append(keyword);
            let t = int_to_text(k);
            out.append(t.as_str());
        }
        out
    }

    /// Builds a COUNT query: the WHERE clause only, whatever the sort, limit
    /// and offset.
    pub fn build_count_query(table_name: &str, criteria: &FilterCriteria) -> (r: String)
        ensures
            r@ == count_text(table_name@, *criteria),
    {
        let mut query = String::from_str("SELECT COUNT(*) FROM ");
        query.append(table_name);
        let w = Self::build_where_part(criteria);
        query.append(w.as_str());
        query
    }

    /// The sort keys of the criteria, each rendered, joined with `, `.
    fn build_order_clause(criteria: &FilterCriteria) -> (r: String)
        ensures
            r@ == join(criteria.sort@.map_values(|s: SortOrder| sort_text(s)), ", "@),
    {
        let n = criteria.sort.len();
        let ghost parts = criteria.sort@.map_values(|s: SortOrder| sort_text(s));
        let mut out = String::new();
        let mut i: usize = 0;
        while i < n
            invariant
                n == criteria.sort@.len(),
                i <= n,
                parts == criteria.sort@.map_values(|s: SortOrder| sort_text(s)),
                out@ == join(parts.subrange(0, i as int), ", "@),
            decreases n - i,
        {
            if i > 0 {
                out.append(", ");
            }
            let s = &criteria.sort[i];
            out.append(s.field.as_str());
            match s.direction {
                SortDirection::Ascending => out.append(" ASC"),
                SortDirection::Descending => out.append(" DESC"),
            }
            proof {
                let next = parts.subrange(0, i + 1);
                assert(next.drop_last() =~= parts.subrange(0, i as int));
                if i == 0 {
                    assert(parts.subrange(0, 0) =~= Seq::<Seq<char>>::empty());
                }
            }
            assert(out@ =~= join(parts.subrange(0, i + 1), ", "@));
            i = i + 1;
        }
        assert(parts.subrange(0, n as int) =~= parts);
        out
    }

    /// The conditions of the criteria, each rendered, joined with ` AND `.
    fn build_where_clause(criteria: &FilterCriteria) -> (r: String)
        ensures
            r@ == conditions_text(criteria.conditions@),
    {
        let n = criteria.conditions.len();
        let ghost parts = criteria.conditions@.map_values(|c: Condition| clause_text(c));
        let mut out = String::new();
        let mut i: usize = 0;
        while i < n
            invariant
                n == criteria.conditions@.len(),
                i <= n,
                parts == criteria.conditions@.map_values(|c: Condition| clause_text(c)),
                out@ == join(parts.subrange(0, i as int), " AND "@),
            decreases n - i,
        {
            if i > 0 {
                out.append(" AND ");
            }
            let clause = Self::build_clause(&criteria.conditions[i]);
            out.append(clause.as_str());
            proof {
                let next = parts.subrange(0, i + 1);
                assert(next.drop_last() =~= parts.subrange(0, i as int));
                if i == 0 {
                    assert(parts.subrange(0, 0) =~= Seq::<Seq<char>>::empty());
                }
            }
            assert(out@ =~= join(parts.subrange(0, i + 1), " AND "@));
            i = i + 1;
        }
        assert(parts.subrange(0, n as int) =~= parts);
        out
    }

    /// The text of one condition.
    fn build_clause(condition: &Condition) -> (r: String)
        ensures
            r@ == clause_text(*condition),
    {
        let mut out = condition.field.clone();
        let value = &condition.value;
        match condition.operator {
            Operator::IsNull => {
                out.append(" IS NULL");
                return out;
            },
            Operator::IsNotNull => {
                out.append(" IS NOT NULL");
                return out;
            },
            Operator::Equal => out.append(" = "),
            Operator::NotEqual => out.append(" != "),
            Operator::GreaterThan => out.append(" > "),
            Operator::GreaterThanOrEqual => out.append(" >= "),
            Operator::LessThan => out.append(" < "),
            Operator::LessThanOrEqual => out.append(" <= "),
            Operator::Like => out.append(" ILIKE "),
            Operator::In => {
                if let ConditionValue::List(_) = value {
                    out.append(" IN ");
                } else {
                    out.append(" = ");
                }
            },
        }
        let v = Self::format_value(value);
        out.append(v.as_str());
        out
    }

    /// Formats a value as a literal of the query text, quoting strings with
    /// each quote doubled.
    pub fn format_value(value: &ConditionValue) -> (r: String)
        ensures
            r@ == value_text(*value),
        decreases value_size(*value),
    {
        match value {
            ConditionValue::String(s) => quote_text(s.as_str()),
            ConditionValue::Integer(i) => int_to_text(*i),
            ConditionValue::Float(t) => t.clone(),
            ConditionValue::Boolean(b) => {
                if *b {
                    String::from_str("TRUE")
                } else {
                    String::from_str("FALSE")
                }
            },
            ConditionValue::Null => String::from_str("NULL"),
            ConditionValue::List(vs) => {
                let mut out = String::from_str("(");
                let n = vs.len();
                let mut i: usize = 0;
                while i < n
                    invariant
                        n == vs@.len(),
                        i <= n,
                        *value == ConditionValue::List(*vs),
                        out@ == "("@ + list_text(*vs, i as nat),
                    decreases n - i,
                {
                    if i > 0 {
                        out.append(", ");
                    }
                    proof {
                        lemma_element_smaller(*vs, i as int, n as nat);
                    }
                    let t = Self::format_value(&vs[i]);
                    out.append(t.as_str());
                    assert(out@ =~= "("@ + list_text(*vs, (i + 1) as nat));
                    i = i + 1;
                }
                out.append(")");
                out
            },
        }
    }
}

} // verus!
