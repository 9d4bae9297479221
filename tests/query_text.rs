use wyvern::{
    Condition, ConditionValue, FilterCriteria, Operator, RepositoryError, SortOrder, SqlxAdapter,
};

#[test]
fn select_two_conditions_exact() {
    let criteria = FilterCriteria::new()
        .with_condition(Condition::eq("provider", "openai".into()))
        .with_condition(Condition::gt("price", 10.into()));
    let query = SqlxAdapter::build_select_query("llm_model_pricing", &criteria);
    assert_eq!(
        query,
        "SELECT * FROM llm_model_pricing WHERE provider = 'openai' AND price > 10"
    );
}

#[test]
fn select_sort_only_exact() {
    let criteria = FilterCriteria::new()
        .with_sort(SortOrder::asc("model_name"))
        .with_sort(SortOrder::desc("created_at"));
    let query = SqlxAdapter::build_select_query("llm_model_pricing", &criteria);
    assert_eq!(
        query,
        "SELECT * FROM llm_model_pricing ORDER BY model_name ASC, created_at DESC"
    );
    assert!(!query.contains("WHERE"));
}

#[test]
fn select_limit_offset_after_other_clauses() {
    let bare = FilterCriteria::new().with_offset(20).with_limit(10);
    assert_eq!(
        SqlxAdapter::build_select_query("t", &bare),
        "SELECT * FROM t LIMIT 10 OFFSET 20"
    );
    let full = FilterCriteria::new()
        .with_limit(10)
        .with_offset(20)
        .with_sort(SortOrder::desc("id"))
        .with_condition(Condition::ne("a", 1.into()));
    assert_eq!(
        SqlxAdapter::build_select_query("t", &full),
        "SELECT * FROM t WHERE a != 1 ORDER BY id DESC LIMIT 10 OFFSET 20"
    );
}

#[test]
fn select_empty_criteria() {
    let criteria = FilterCriteria::new();
    assert_eq!(SqlxAdapter::build_select_query("users", &criteria), "SELECT * FROM users");
    assert_eq!(SqlxAdapter::build_count_query("users", &criteria), "SELECT COUNT(*) FROM users");
}

#[test]
fn select_and_count_per_condition() {
    let criteria = FilterCriteria::new()
        .with_condition(Condition::eq("a", 1.into()))
        .with_condition(Condition::eq("b", 2.into()))
        .with_condition(Condition::eq("c", 3.into()));
    let query = SqlxAdapter::build_select_query("t", &criteria);
    assert_eq!(query.matches("AND").count(), 2);
    assert_eq!(query.matches("WHERE").count(), 1);
}

#[test]
fn count_ignores_sort_limit_offset() {
    let criteria = FilterCriteria::new()
        .with_condition(Condition::eq("active", true.into()))
        .with_sort(SortOrder::asc("name"))
        .with_limit(5)
        .with_offset(15);
    let query = SqlxAdapter::build_count_query("users", &criteria);
    assert_eq!(query, "SELECT COUNT(*) FROM users WHERE active = TRUE");
    assert!(!query.contains("ORDER BY"));
    assert!(!query.contains("LIMIT"));
    assert!(!query.contains("OFFSET"));
}

#[test]
fn every_operator_renders() {
    let cases = vec![
        (Operator::Equal, "x = 1"),
        (Operator::NotEqual, "x != 1"),
        (Operator::GreaterThan, "x > 1"),
        (Operator::GreaterThanOrEqual, "x >= 1"),
        (Operator::LessThan, "x < 1"),
        (Operator::LessThanOrEqual, "x <= 1"),
        (Operator::Like, "x ILIKE 1"),
        (Operator::In, "x = 1"),
        (Operator::IsNull, "x IS NULL"),
        (Operator::IsNotNull, "x IS NOT NULL"),
    ];
    for (op, expected) in cases {
        let criteria =
            FilterCriteria::new().with_condition(Condition::new("x", op, ConditionValue::Integer(1)));
        assert_eq!(
            SqlxAdapter::build_select_query("t", &criteria),
            format!("SELECT * FROM t WHERE {}", expected)
        );
    }
}

#[test]
fn in_with_scalar_degrades_to_equality() {
    let criteria = FilterCriteria::new().with_condition(Condition::new(
        "field",
        Operator::In,
        ConditionValue::Integer(5),
    ));
    assert_eq!(
        SqlxAdapter::build_select_query("t", &criteria),
        "SELECT * FROM t WHERE field = 5"
    );
}

#[test]
fn in_list_helper_renders_list() {
    let criteria = FilterCriteria::new().with_condition(Condition::in_list(
        "provider",
        vec![ConditionValue::from("openai"), ConditionValue::from("anthropic")],
    ));
    assert_eq!(
        SqlxAdapter::build_select_query("t", &criteria),
        "SELECT * FROM t WHERE provider IN ('openai', 'anthropic')"
    );
}

#[test]
fn list_under_equality_stays_a_list() {
    let value = ConditionValue::List(vec![
        ConditionValue::Integer(1),
        ConditionValue::List(vec![ConditionValue::Null, ConditionValue::Boolean(false)]),
    ]);
    let criteria = FilterCriteria::new().with_condition(Condition::eq("x", value));
    assert_eq!(
        SqlxAdapter::build_select_query("t", &criteria),
        "SELECT * FROM t WHERE x = (1, (NULL, FALSE))"
    );
    assert_eq!(SqlxAdapter::format_value(&ConditionValue::List(vec![])), "()");
}

#[test]
fn format_scalars() {
    assert_eq!(SqlxAdapter::format_value(&ConditionValue::Integer(0)), "0");
    assert_eq!(SqlxAdapter::format_value(&ConditionValue::Integer(-42)), "-42");
    assert_eq!(
        SqlxAdapter::format_value(&ConditionValue::Integer(i64::MIN)),
        "-9223372036854775808"
    );
    assert_eq!(
        SqlxAdapter::format_value(&ConditionValue::Integer(i64::MAX)),
        "9223372036854775807"
    );
    assert_eq!(SqlxAdapter::format_value(&ConditionValue::Boolean(true)), "TRUE");
    assert_eq!(SqlxAdapter::format_value(&ConditionValue::Boolean(false)), "FALSE");
    assert_eq!(SqlxAdapter::format_value(&ConditionValue::Null), "NULL");
    let f: f64 = 2.5;
    assert_eq!(SqlxAdapter::format_value(&ConditionValue::Float(f.to_string())), "2.5");
}

#[test]
fn format_string_quotes() {
    let cases = vec![
        ("", "''"),
        ("'", "''''"),
        ("''", "''''''"),
        ("a'b'c", "'a''b''c'"),
        ("back\\slash", "'back\\slash'"),
        ("héllo'wörld", "'héllo''wörld'"),
    ];
    for (input, expected) in cases {
        let out = SqlxAdapter::format_value(&ConditionValue::String(input.to_string()));
        assert_eq!(out, expected);
        assert_eq!(
            out.matches('\'').count(),
            2 * input.matches('\'').count() + 2
        );
        assert_eq!(out.replace('\'', ""), input.replace('\'', ""));
    }
}

#[test]
fn conversions_into_values() {
    let s = SqlxAdapter::format_value(&ConditionValue::from(String::from("x")));
    assert_eq!(s, "'x'");
    let i = SqlxAdapter::format_value(&ConditionValue::from(7i64));
    assert_eq!(i, "7");
    let j = SqlxAdapter::format_value(&ConditionValue::from(-3i32));
    assert_eq!(j, "-3");
    let b = SqlxAdapter::format_value(&ConditionValue::from(true));
    assert_eq!(b, "TRUE");
}

#[test]
fn error_descriptions() {
    assert_eq!(
        RepositoryError::NotFound("user 7".to_string()).to_string(),
        "Entity not found: user 7"
    );
    assert_eq!(
        RepositoryError::ConstraintViolation("dup".to_string()).to_string(),
        "Constraint violation: dup"
    );
    assert_eq!(
        RepositoryError::ConnectionError("down".to_string()).to_string(),
        "Connection error: down"
    );
    assert_eq!(
        RepositoryError::TransactionError("t".to_string()).to_string(),
        "Transaction error: t"
    );
    assert_eq!(RepositoryError::QueryError("q".to_string()).to_string(), "Query error: q");
    assert_eq!(RepositoryError::InvalidInput("i".to_string()).to_string(), "Invalid input: i");
    assert_eq!(RepositoryError::Internal("x".to_string()).to_string(), "Internal error: x");
}

#[test]
fn cloned_criteria_build_the_same_query() {
    let criteria = FilterCriteria::new()
        .with_condition(Condition::in_list(
            "kind",
            vec![
                ConditionValue::List(vec![ConditionValue::Integer(1)]),
                ConditionValue::String("it's".to_string()),
            ],
        ))
        .with_sort(SortOrder::asc("id"))
        .with_limit(3);
    let copy = criteria.clone();
    assert_eq!(
        SqlxAdapter::build_select_query("t", &copy),
        "SELECT * FROM t WHERE kind IN ((1), 'it''s') ORDER BY id ASC LIMIT 3"
    );
    assert_eq!(
        SqlxAdapter::build_select_query("t", &copy),
        SqlxAdapter::build_select_query("t", &criteria)
    );
}
