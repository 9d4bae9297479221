use wyvern::{Condition, ConditionValue, FilterCriteria, Operator, SortOrder, SqlxAdapter};

#[test]
fn test_build_simple_query() {
    let criteria =
        FilterCriteria::new().with_condition(Condition::eq("provider", "openai".into()));

    let query = SqlxAdapter::build_select_query("llm_model_pricing", &criteria);

    assert!(query.contains("SELECT * FROM llm_model_pricing"));
    assert!(query.contains("WHERE provider = 'openai'"));
}

#[test]
fn test_build_query_with_multiple_conditions() {
    let criteria = FilterCriteria::new()
        .with_condition(Condition::eq("provider", "openai".into()))
        .with_condition(Condition::gt("price", 10.into()));

    let query = SqlxAdapter::build_select_query("llm_model_pricing", &criteria);

    assert!(query.contains("provider = 'openai'"));
    assert!(query.contains("price > 10"));
    assert!(query.contains("AND"));
}

#[test]
fn test_build_query_with_sorting() {
    let criteria = FilterCriteria::new()
        .with_sort(SortOrder::asc("model_name"))
        .with_sort(SortOrder::desc("created_at"));

    let query = SqlxAdapter::build_select_query("llm_model_pricing", &criteria);

    assert!(query.contains("ORDER BY model_name ASC, created_at DESC"));
}

#[test]
fn test_build_query_with_limit_offset() {
    let criteria = FilterCriteria::new().with_limit(10).with_offset(20);

    let query = SqlxAdapter::build_select_query("llm_model_pricing", &criteria);

    assert!(query.contains("LIMIT 10"));
    assert!(query.contains("OFFSET 20"));
}

#[test]
fn test_build_query_with_null_check() {
    let criteria = FilterCriteria::new().with_condition(Condition::new(
        "valid_to",
        Operator::IsNull,
        ConditionValue::Null,
    ));

    let query = SqlxAdapter::build_select_query("llm_model_pricing", &criteria);

    assert!(query.contains("valid_to IS NULL"));
}

#[test]
fn test_format_string_with_quotes() {
    let value = ConditionValue::String("O'Reilly".to_string());
    let formatted = SqlxAdapter::format_value(&value);

    assert_eq!(formatted, "'O''Reilly'");
}

#[test]
fn test_build_count_query() {
    let criteria = FilterCriteria::new().with_condition(Condition::eq("active", true.into()));

    let query = SqlxAdapter::build_count_query("users", &criteria);

    assert!(query.contains("SELECT COUNT(*) FROM users"));
    assert!(query.contains("WHERE active = TRUE"));
}

#[test]
fn test_like_operator() {
    let criteria = FilterCriteria::new().with_condition(Condition::new(
        "model_name",
        Operator::Like,
        ConditionValue::String("%gpt%".to_string()),
    ));

    let query = SqlxAdapter::build_select_query("llm_model_pricing", &criteria);

    assert!(query.contains("model_name ILIKE '%gpt%'"));
}

#[test]
fn test_in_operator() {
    let criteria = FilterCriteria::new().with_condition(Condition::new(
        "provider",
        Operator::In,
        ConditionValue::List(vec![
            ConditionValue::String("openai".to_string()),
            ConditionValue::String("anthropic".to_string()),
        ]),
    ));

    let query = SqlxAdapter::build_select_query("llm_model_pricing", &criteria);

    assert!(query.contains("provider IN ('openai', 'anthropic')"));
}
