use sql_query::SqlQuery;

fn strings(items: &[&str]) -> Vec<String> {
    items.iter().map(|s| s.to_string()).collect()
}

fn base() -> SqlQuery {
    SqlQuery {
        columns: vec!["column1".to_string(), "column2".to_string()],
        table_name: "my_table_name".to_string(),
        conditions: vec![],
        order_by: vec![],
        limit: None,
    }
}

#[test]
fn test_get_select_portion() {
    let query = SqlQuery {
        columns: vec!["column1".to_string(), "column2".to_string()],
        table_name: "my_table_name".to_string(),
        conditions: vec![],
        order_by: vec![],
        limit: None,
    };

    let select_portion = query.get_select_portion();
    assert_eq!(select_portion, "SELECT column1, column2 FROM my_table_name");
}

#[test]
fn test_get_select_portion_with_conditions() {
    let query = SqlQuery {
        columns: vec!["column1".to_string(), "column2".to_string()],
        table_name: "my_table_name".to_string(),
        conditions: vec!["column3 = 'value'".to_string(), "column4 > 10".to_string()],
        order_by: vec![],
        limit: None,
    };

    let res = query.get_query();

    assert_eq!(
        res,
        "SELECT column1, column2 FROM my_table_name WHERE column3 = 'value' AND column4 > 10;"
    );
}

#[test]
fn test_get_query() {
    let query = SqlQuery {
        columns: vec!["column1".to_string(), "column2".to_string()],
        table_name: "my_table_name".to_string(),
        conditions: vec!["column3 = 'value'".to_string(), "column4 > 10".to_string()],
        order_by: vec![String::from("population"), String::from("name")],
        limit: Some(20),
    };

    let res = query.get_query();

    assert_eq!(
        res,
        "SELECT column1, column2 FROM my_table_name WHERE column3 = 'value' AND column4 > 10 ORDER BY population, name LIMIT 20;"
    );
}

#[test]
fn columns_only() {
    assert_eq!(base().get_query(), "SELECT column1, column2 FROM my_table_name;");
}

#[test]
fn empty_columns_leave_two_spaces() {
    let query = SqlQuery {
        columns: vec![],
        table_name: "t".to_string(),
        conditions: vec![],
        order_by: vec![],
        limit: None,
    };
    assert_eq!(query.get_query(), "SELECT  FROM t;");
}

#[test]
fn empty_table_name() {
    let mut query = base();
    query.table_name = String::new();
    assert_eq!(query.get_query(), "SELECT column1, column2 FROM ;");
}

#[test]
fn default_query() {
    let query = SqlQuery::default();
    assert_eq!(query.get_query(), "SELECT  FROM ;");
}

#[test]
fn limit_zero_is_present() {
    let mut query = base();
    query.limit = Some(0);
    assert_eq!(query.get_limit_portion(), Some("LIMIT 0".to_string()));
    assert_eq!(query.get_query(), "SELECT column1, column2 FROM my_table_name LIMIT 0;");
}

#[test]
fn limit_digits() {
    let mut query = base();
    query.limit = Some(1207);
    assert_eq!(query.get_limit_portion(), Some("LIMIT 1207".to_string()));
    query.limit = Some(usize::MAX);
    assert_eq!(query.get_limit_portion(), Some(format!("LIMIT {}", usize::MAX)));
}

#[test]
fn absent_portions_are_none() {
    let query = base();
    assert_eq!(query.get_conditions_portion(), None);
    assert_eq!(query.get_order_by_portion(), None);
    assert_eq!(query.get_limit_portion(), None);
}

#[test]
fn single_condition_has_no_and() {
    let mut query = base();
    query.conditions = strings(&["a = 1"]);
    assert_eq!(query.get_conditions_portion(), Some("WHERE a = 1".to_string()));
    assert!(!query.get_query().contains("AND"));
}

#[test]
fn conditions_join_with_and() {
    let mut query = base();
    query.conditions = strings(&["a = 1", "b = 2", "c = 3"]);
    assert_eq!(
        query.get_conditions_portion(),
        Some("WHERE a = 1 AND b = 2 AND c = 3".to_string())
    );
}

#[test]
fn order_by_joins_with_comma() {
    let mut query = base();
    query.order_by = strings(&["population DESC", "name"]);
    assert_eq!(
        query.get_order_by_portion(),
        Some("ORDER BY population DESC, name".to_string())
    );
    assert_eq!(
        query.get_query(),
        "SELECT column1, column2 FROM my_table_name ORDER BY population DESC, name;"
    );
}

#[test]
fn no_where_without_conditions() {
    let mut query = base();
    query.order_by = strings(&["name"]);
    query.limit = Some(5);
    assert!(!query.get_query().contains("WHERE"));
}

#[test]
fn clause_order_is_fixed() {
    let mut query = base();
    query.limit = Some(3);
    query.order_by = strings(&["x"]);
    query.conditions = strings(&["y > 1"]);
    let text = query.get_query();
    let w = text.find("WHERE").unwrap();
    let o = text.find("ORDER BY").unwrap();
    let l = text.find("LIMIT").unwrap();
    assert!(w < o && o < l);
    assert_eq!(text, "SELECT column1, column2 FROM my_table_name WHERE y > 1 ORDER BY x LIMIT 3;");
}

#[test]
fn where_and_limit_without_order() {
    let mut query = base();
    query.conditions = strings(&["y > 1"]);
    query.limit = Some(10);
    assert_eq!(query.get_query(), "SELECT column1, column2 FROM my_table_name WHERE y > 1 LIMIT 10;");
}

#[test]
fn single_trailing_semicolon() {
    let mut query = base();
    query.conditions = strings(&["a = 1"]);
    query.order_by = strings(&["b"]);
    query.limit = Some(7);
    let text = query.get_query();
    assert!(text.ends_with(';'));
    assert_eq!(text.matches(';').count(), 1);
}

#[test]
fn rendering_twice_gives_same_text() {
    let mut query = base();
    query.conditions = strings(&["a = 1"]);
    query.limit = Some(9);
    assert_eq!(query.get_query(), query.get_query());
}
