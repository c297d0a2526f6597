use query_pro_bg_rust::permissions::Permissions;
use query_pro_bg_rust::permission_map::TablePermissionMap;
use query_pro_bg_rust::query_service::{query, try_query};
use query_pro_bg_rust::query_structure::{
    Field, FromJoiner, FromJoinerOn, JsonItem, OrderByClause, QueryStructure, QueryStructureAction,
    QueryStructureFrom, WhereClause, WhereValue,
};
use query_pro_bg_rust::resp::HttpErrorData;
use query_pro_bg_rust::uid::Uid;

const SERIAL: &str = "0123456789abcdef0123456789abcdef";

fn field(table: Option<&str>, column: &str) -> Field {
    Field { table: table.map(|s| s.to_string()), column: column.to_string(), commands: None }
}

fn upper_field(table: Option<&str>, column: &str) -> Field {
    Field {
        table: table.map(|s| s.to_string()),
        column: column.to_string(),
        commands: Some("UPPER_CASE".to_string()),
    }
}

fn clause(f: Option<Field>, op: &str, value: Option<WhereValue>) -> WhereClause {
    WhereClause { field: f, operator: op.to_string(), value, commands: None }
}

fn num(t: &str) -> JsonItem {
    JsonItem::Number(t.to_string())
}

fn simple(main: &str) -> QueryStructure {
    QueryStructure {
        action: QueryStructureAction::SELECT,
        fields: vec![],
        from: QueryStructureFrom { main: main.to_string(), joins: vec![] },
        where_clause: vec![],
        order_by: vec![],
        limit: None,
    }
}

fn rule(table: &str, uid_read: Option<&str>, uid_write: Option<&str>, joiners: Option<&str>) -> Permissions {
    Permissions {
        table: table.to_string(),
        column: None,
        uid_read: uid_read.map(|s| s.to_string()),
        uid_write: uid_write.map(|s| s.to_string()),
        joiners: joiners.map(|s| s.to_string()),
    }
}

fn logged_in(u: &str) -> Uid {
    Uid { uid_sql_val_str: Some(u.to_string()) }
}

fn anonymous() -> Uid {
    Uid { uid_sql_val_str: None }
}

fn sql_of(uid: &Uid, map: &TablePermissionMap, q: QueryStructure) -> String {
    let d = match query(uid, map, q, true, SERIAL.to_string()) {
        Ok(d) => d,
        Err(e) => panic!("refused with code {}", e.body.data.code),
    };
    assert_eq!(d.success, 1);
    assert_eq!(d.data.len(), 1);
    d.data[0].clone()
}

fn local_sql_of(uid: &Uid, map: &TablePermissionMap, q: QueryStructure) -> String {
    match query(uid, map, q, false, SERIAL.to_string()) {
        Ok(d) => d.data[0].clone(),
        Err(e) => panic!("refused with code {}", e.body.data.code),
    }
}

fn error_of(uid: &Uid, map: &TablePermissionMap, q: QueryStructure) -> HttpErrorData {
    match query(uid, map, q, true, SERIAL.to_string()) {
        Ok(d) => panic!("rendered as {}", d.data[0]),
        Err(e) => e,
    }
}

#[test]
fn select_all_from_one_table() {
    let m = TablePermissionMap::new();
    assert_eq!(sql_of(&anonymous(), &m, simple("user")), "SELECT *\nFROM user\n\n\n");
}

#[test]
fn selected_fields_are_qualified_and_upper_cased() {
    let m = TablePermissionMap::new();
    let mut q = simple("u");
    q.fields = vec![upper_field(Some("u"), "name"), field(None, "id")];
    assert_eq!(sql_of(&anonymous(), &m, q), "SELECT UPPER(u.name), id\nFROM u\n\n\n");
}

#[test]
fn action_names_the_statement() {
    let m = TablePermissionMap::new();
    let mut q = simple("t");
    q.action = QueryStructureAction::DELETE;
    assert_eq!(local_sql_of(&anonymous(), &m, q), "DELETE *\nFROM t\n\n\n");
}

#[test]
fn read_rule_adds_joiners_and_condition() {
    let m = TablePermissionMap::from_permissions(vec![rule(
        "coffee",
        Some("order.user_id"),
        None,
        Some("left join order on coffee.order_id = order.id"),
    )]);
    assert_eq!(
        sql_of(&logged_in("'42'"), &m, simple("coffee")),
        "SELECT *\nFROM coffee left join order on coffee.order_id = order.id\nWHERE order.user_id = '42'\n\n"
    );
}

#[test]
fn write_actions_use_write_rules_for_joiners() {
    let m = TablePermissionMap::from_permissions(vec![rule(
        "coffee",
        Some("order.user_id"),
        None,
        Some("left join order on coffee.order_id = order.id"),
    )]);
    let mut q = simple("coffee");
    q.action = QueryStructureAction::UPDATE;
    assert_eq!(sql_of(&logged_in("'42'"), &m, q), "UPDATE *\nFROM coffee\nWHERE order.user_id = '42'\n\n");
    let m2 = TablePermissionMap::from_permissions(vec![rule("coffee", None, Some("o.w"), Some("join o"))]);
    let mut q2 = simple("coffee");
    q2.action = QueryStructureAction::UPDATE;
    assert_eq!(sql_of(&anonymous(), &m2, q2), "UPDATE *\nFROM coffee join o\n\n\n");
    assert_eq!(sql_of(&anonymous(), &m2, simple("coffee")), "SELECT *\nFROM coffee\n\n\n");
}

#[test]
fn anonymous_caller_is_unauthorized_on_read_rule() {
    let m = TablePermissionMap::from_permissions(vec![rule("user_pri", Some("user_pri.uid"), Some("user_pri.uid"), None)]);
    let e = error_of(&anonymous(), &m, simple("user_pri"));
    assert_eq!(e.status, 401);
    assert_eq!(e.body.data.code, 641);
    assert_eq!(e.body.success, 0);
}

#[test]
fn rules_of_joined_tables_apply_too() {
    let m = TablePermissionMap::from_permissions(vec![
        rule("a", Some("a.uid"), None, None),
        rule("b", Some("b.uid"), None, None),
    ]);
    let mut q = simple("a");
    q.from.joins = vec![FromJoiner {
        join_type: "LEFT_JOIN".to_string(),
        table: "b".to_string(),
        on: vec![FromJoinerOn { left: field(Some("a"), "id"), right: field(Some("b"), "a_id") }],
    }];
    assert_eq!(
        sql_of(&logged_in("7"), &m, q),
        "SELECT *\nFROM a LEFT JOIN b ON a.id = b.a_id\nWHERE a.uid = 7 AND b.uid = 7\n\n"
    );
}

#[test]
fn left_join_on_several_equalities() {
    let m = TablePermissionMap::new();
    let mut q = simple("a");
    q.from.joins = vec![FromJoiner {
        join_type: "LEFT_JOIN".to_string(),
        table: "b".to_string(),
        on: vec![
            FromJoinerOn { left: field(Some("a"), "id"), right: field(Some("b"), "a_id") },
            FromJoinerOn { left: field(Some("a"), "x"), right: field(None, "x") },
        ],
    }];
    assert_eq!(sql_of(&anonymous(), &m, q), "SELECT *\nFROM a LEFT JOIN b ON a.id = b.a_id AND a.x = x\n\n\n");
}

#[test]
fn other_join_kinds_are_not_implemented() {
    let m = TablePermissionMap::from_permissions(vec![rule("a", Some("a.uid"), None, None)]);
    let mut q = simple("a");
    q.from.joins = vec![FromJoiner { join_type: "INNER_JOIN".to_string(), table: "b".to_string(), on: vec![] }];
    let e = error_of(&anonymous(), &m, q);
    assert_eq!(e.status, 501);
    assert_eq!(e.body.data.code, 32896);
}

#[test]
fn left_join_without_equality_aborts() {
    let m = TablePermissionMap::new();
    let mut q = simple("a");
    q.from.joins = vec![FromJoiner { join_type: "LEFT_JOIN".to_string(), table: "b".to_string(), on: vec![] }];
    assert!(try_query(&anonymous(), &m, q, true, SERIAL.to_string()).is_none());
}

#[test]
fn client_conditions_without_rules() {
    let m = TablePermissionMap::new();
    let mut q = simple("a");
    q.where_clause = vec![
        clause(Some(field(Some("a"), "age")), ">", Some(WhereValue::Item(num("18")))),
        WhereClause {
            field: Some(field(None, "name")),
            operator: "=".to_string(),
            value: Some(WhereValue::Item(JsonItem::Str("bob".to_string()))),
            commands: Some("UPPER_CASE".to_string()),
        },
    ];
    assert_eq!(
        sql_of(&anonymous(), &m, q),
        "SELECT *\nFROM a\nWHERE a.age > 18 AND UPPER(name) = UPPER('bob')\n\n"
    );
}

#[test]
fn client_conditions_follow_permission_conditions_in_brackets() {
    let m = TablePermissionMap::from_permissions(vec![rule("user_pri", Some("user_pri.uid"), None, None)]);
    let mut q = simple("user_pri");
    q.where_clause = vec![clause(
        Some(field(None, "id")),
        "in",
        Some(WhereValue::Array(vec![num("1"), num("2")])),
    )];
    assert_eq!(
        sql_of(&logged_in("'7'"), &m, q),
        "SELECT *\nFROM user_pri\nWHERE user_pri.uid = '7' AND (id in (1, 2))\n\n"
    );
}

#[test]
fn or_conditions_are_left_out_after_the_first() {
    let m = TablePermissionMap::new();
    let mut q = simple("t");
    q.where_clause = vec![
        clause(Some(field(None, "x")), "=", Some(WhereValue::Item(num("1")))),
        clause(
            None,
            "or",
            Some(WhereValue::Array(vec![
                JsonItem::Clause(Box::new(clause(Some(field(None, "y")), "=", Some(WhereValue::Item(num("2")))))),
            ])),
        ),
        clause(Some(field(None, "w")), "=", Some(WhereValue::Item(num("4")))),
    ];
    assert_eq!(sql_of(&anonymous(), &m, q), "SELECT *\nFROM t\nWHERE x = 1\n\n");
}

#[test]
fn leading_or_condition_lists_its_branches() {
    let m = TablePermissionMap::new();
    let mut q = simple("t");
    q.where_clause = vec![clause(
        None,
        "or",
        Some(WhereValue::Array(vec![
            JsonItem::Clause(Box::new(clause(Some(field(None, "a")), "=", Some(WhereValue::Item(num("1")))))),
            JsonItem::Clause(Box::new(clause(Some(field(None, "b")), "=", Some(WhereValue::Item(num("2")))))),
        ])),
    )];
    assert_eq!(sql_of(&anonymous(), &m, q), "SELECT *\nFROM t\nWHERE  or (a = 1 AND b = 2)\n\n");
}

#[test]
fn leading_or_under_permission_control_is_left_out() {
    let m = TablePermissionMap::from_permissions(vec![rule("t", Some("t.uid"), None, None)]);
    let mut q = simple("t");
    q.where_clause = vec![
        clause(None, "or", Some(WhereValue::Array(vec![num("1")]))),
        clause(Some(field(None, "b")), "=", Some(WhereValue::Item(num("2")))),
    ];
    assert_eq!(sql_of(&logged_in("5"), &m, q), "SELECT *\nFROM t\nWHERE t.uid = 5 AND b = 2)\n\n");
}

#[test]
fn literal_values() {
    let m = TablePermissionMap::new();
    let mut q = simple("t");
    q.where_clause = vec![
        clause(Some(field(None, "a")), "=", Some(WhereValue::Item(JsonItem::Bool(true)))),
        clause(Some(field(None, "b")), "is", Some(WhereValue::Item(JsonItem::Null))),
        clause(Some(field(None, "c")), "between", Some(WhereValue::Array(vec![num("1.5"), num("5")]))),
        clause(Some(field(None, "d")), "not in", Some(WhereValue::Array(vec![JsonItem::Bool(false)]))),
        clause(Some(field(None, "e")), "is not", None),
    ];
    assert_eq!(
        sql_of(&anonymous(), &m, q),
        "SELECT *\nFROM t\nWHERE a = true AND b is null AND c between (1.5 AND 5) AND d not in (false) AND e is not \n\n"
    );
}

#[test]
fn upper_case_nested_condition_opens_a_bracket_only() {
    let m = TablePermissionMap::new();
    let mut q = simple("t");
    q.where_clause = vec![WhereClause {
        field: Some(field(None, "f")),
        operator: "=".to_string(),
        value: Some(WhereValue::Item(JsonItem::Clause(Box::new(clause(
            Some(field(None, "g")),
            "=",
            Some(WhereValue::Item(JsonItem::Str("x".to_string()))),
        ))))),
        commands: Some("UPPER_CASE".to_string()),
    }];
    assert_eq!(sql_of(&anonymous(), &m, q), "SELECT *\nFROM t\nWHERE UPPER(f) = UPPER(g = 'x'\n\n");
}

#[test]
fn list_with_unknown_operator_is_not_implemented() {
    let m = TablePermissionMap::new();
    let mut q = simple("t");
    q.where_clause = vec![clause(Some(field(None, "a")), "=", Some(WhereValue::Array(vec![num("1")])))];
    let e = error_of(&anonymous(), &m, q);
    assert_eq!((e.status, e.body.data.code), (501, 32896));
}

#[test]
fn unreadable_value_is_not_implemented() {
    let m = TablePermissionMap::new();
    let mut q = simple("t");
    q.where_clause = vec![clause(Some(field(None, "a")), "=", Some(WhereValue::Item(JsonItem::Unreadable)))];
    let e = error_of(&anonymous(), &m, q);
    assert_eq!((e.status, e.body.data.code), (501, 32896));
}

#[test]
fn empty_list_aborts() {
    let m = TablePermissionMap::new();
    let mut q = simple("t");
    q.where_clause = vec![clause(Some(field(None, "a")), "in", Some(WhereValue::Array(vec![])))];
    assert!(try_query(&anonymous(), &m, q, false, SERIAL.to_string()).is_none());
}

#[test]
fn try_query_answers_like_query() {
    let m = TablePermissionMap::new();
    match try_query(&anonymous(), &m, simple("t"), true, SERIAL.to_string()) {
        Some(Ok(d)) => assert_eq!(d.data, vec!["SELECT *\nFROM t\n\n\n".to_string()]),
        _ => panic!("no SQL"),
    }
}

#[test]
fn order_by_clause() {
    let m = TablePermissionMap::new();
    let mut q = simple("a");
    q.order_by = vec![
        OrderByClause { field: field(Some("a"), "x"), operator: "desc".to_string() },
        OrderByClause { field: field(None, "y"), operator: "".to_string() },
        OrderByClause { field: field(None, "z"), operator: "asc".to_string() },
    ];
    assert_eq!(sql_of(&anonymous(), &m, q), "SELECT *\nFROM a\n\nORDER BY a.x DESC, y ASC, z ASC\n");
}

#[test]
fn unknown_order_is_a_wrong_parameter() {
    let m = TablePermissionMap::new();
    let mut q = simple("a");
    q.order_by = vec![OrderByClause { field: field(None, "x"), operator: "up".to_string() }];
    let e = error_of(&anonymous(), &m, q);
    assert_eq!((e.status, e.body.data.code), (400, 65));
}

#[test]
fn limit_clause() {
    let m = TablePermissionMap::new();
    let cases: Vec<(Option<i32>, &str)> = vec![
        (Some(10), "LIMIT 10"),
        (Some(0), "LIMIT 0"),
        (Some(-1), ""),
        (Some(-5), "LIMIT -5"),
        (Some(i32::MAX), "LIMIT 2147483647"),
        (Some(i32::MIN), "LIMIT -2147483648"),
        (None, ""),
    ];
    for (limit, text) in cases {
        let mut q = simple("a");
        q.limit = limit;
        assert_eq!(sql_of(&anonymous(), &m, q), format!("SELECT *\nFROM a\n\n\n{}", text));
    }
}

#[test]
fn from_clause_is_refused_before_where_clause() {
    let m = TablePermissionMap::from_permissions(vec![rule("a", Some("a.uid"), None, None)]);
    let mut q = simple("a");
    q.from.joins = vec![FromJoiner { join_type: "RIGHT_JOIN".to_string(), table: "b".to_string(), on: vec![] }];
    q.order_by = vec![OrderByClause { field: field(None, "x"), operator: "up".to_string() }];
    let e = error_of(&anonymous(), &m, q);
    assert_eq!(e.body.data.code, 32896);
}

#[test]
fn where_clause_is_refused_before_order_clause() {
    let m = TablePermissionMap::from_permissions(vec![rule("a", Some("a.uid"), None, None)]);
    let mut q = simple("a");
    q.order_by = vec![OrderByClause { field: field(None, "x"), operator: "up".to_string() }];
    let e = error_of(&anonymous(), &m, q);
    assert_eq!(e.body.data.code, 641);
}

#[test]
fn table_lookup_ignores_case() {
    let m = TablePermissionMap::from_permissions(vec![rule("Coffee", Some("c.uid"), None, None)]);
    assert_eq!(sql_of(&logged_in("1"), &m, simple("coffee")), "SELECT *\nFROM coffee\nWHERE c.uid = 1\n\n");
    assert_eq!(sql_of(&logged_in("1"), &m, simple("COFFEE")), "SELECT *\nFROM COFFEE\nWHERE c.uid = 1\n\n");
    let e = error_of(&anonymous(), &m, simple("Coffee"));
    assert_eq!((e.status, e.body.data.code), (401, 641));
}

#[test]
fn local_calls_have_no_permission_control() {
    let m = TablePermissionMap::from_permissions(vec![rule("t", Some("t.uid"), None, Some("join o"))]);
    assert_eq!(local_sql_of(&anonymous(), &m, simple("t")), "SELECT *\nFROM t\n\n\n");
    let mut q = simple("other");
    q.action = QueryStructureAction::UPDATE;
    assert_eq!(local_sql_of(&anonymous(), &m, q), "UPDATE *\nFROM other\n\n\n");
}

#[test]
fn writes_to_tables_without_rules_are_forbidden() {
    let m = TablePermissionMap::from_permissions(vec![rule("t", Some("t.uid"), Some("t.uid"), None)]);
    let mut q = simple("other");
    q.action = QueryStructureAction::UPDATE;
    let e = error_of(&logged_in("1"), &m, q);
    assert_eq!((e.status, e.body.data.code, e.body.data.tip), (403, 642, Some("禁止访问")));
    assert_eq!(e.body.data.serial, SERIAL);
    let mut q2 = simple("t");
    q2.action = QueryStructureAction::DELETE;
    assert_eq!(sql_of(&logged_in("1"), &m, q2), "DELETE *\nFROM t\nWHERE t.uid = 1\n\n");
}

#[test]
fn column_rules_apply_only_where_the_column_is_read() {
    let m = TablePermissionMap::from_permissions(vec![Permissions {
        table: "coffee".to_string(),
        column: Some("name".to_string()),
        uid_read: Some("coffee.uid".to_string()),
        uid_write: None,
        joiners: None,
    }]);
    let mut q = simple("coffee");
    q.fields = vec![field(None, "price")];
    assert_eq!(sql_of(&anonymous(), &m, q), "SELECT price\nFROM coffee\n\n\n");
    let mut q2 = simple("coffee");
    q2.fields = vec![field(None, "price"), field(Some("COFFEE"), "NAME")];
    let e = error_of(&anonymous(), &m, q2);
    assert_eq!(e.body.data.code, 641);
    let mut q3 = simple("coffee");
    q3.fields = vec![field(None, "name")];
    assert_eq!(sql_of(&logged_in("9"), &m, q3), "SELECT name\nFROM coffee\nWHERE coffee.uid = 9\n\n");
    let e4 = error_of(&anonymous(), &m, simple("coffee"));
    assert_eq!(e4.body.data.code, 641);
    let mut q5 = simple("coffee");
    q5.fields = vec![field(Some("tea"), "name")];
    assert_eq!(sql_of(&anonymous(), &m, q5), "SELECT tea.name\nFROM coffee\n\n\n");
}

#[test]
fn quotes_in_string_values_are_doubled() {
    let m = TablePermissionMap::from_permissions(vec![rule("t", Some("t.uid"), None, None)]);
    let mut q = simple("t");
    q.where_clause = vec![clause(
        Some(field(None, "a")),
        "=",
        Some(WhereValue::Item(JsonItem::Str("x') OR ('1'='1".to_string()))),
    )];
    assert_eq!(
        sql_of(&logged_in("'u1'"), &m, q),
        "SELECT *\nFROM t\nWHERE t.uid = 'u1' AND (a = 'x'') OR (''1''=''1')\n\n"
    );
}

#[test]
fn client_fields_that_are_not_plain_columns_are_wrong_parameters() {
    let m = TablePermissionMap::new();
    let sub_query = || {
        let mut q = simple("t");
        q.fields = vec![field(None, "(SELECT pwd FROM user_pri)")];
        q
    };
    let e = error_of(&anonymous(), &m, sub_query());
    assert_eq!((e.status, e.body.data.code), (400, 65));
    assert_eq!(e.body.data.serial, SERIAL);
    let mut q2 = simple("t");
    q2.fields = vec![field(Some("t; DROP TABLE t"), "a")];
    assert_eq!(error_of(&anonymous(), &m, q2).body.data.code, 65);
    assert_eq!(
        local_sql_of(&anonymous(), &m, sub_query()),
        "SELECT (SELECT pwd FROM user_pri)\nFROM t\n\n\n"
    );
}

#[test]
fn plain_fields_of_every_kind_are_selected() {
    let m = TablePermissionMap::new();
    let mut q = simple("shop.t");
    q.fields = vec![field(Some("shop.t"), "a"), field(Some("t"), "*"), field(None, "名字"), field(None, "$x_1")];
    assert_eq!(sql_of(&anonymous(), &m, q), "SELECT shop.t.a, t.*, 名字, $x_1\nFROM shop.t\n\n\n");
}

#[test]
fn names_and_operators_are_written_as_given() {
    let m = TablePermissionMap::new();
    let mut q = simple("t");
    q.where_clause = vec![clause(
        Some(field(None, "a")),
        "LIKE",
        Some(WhereValue::Item(JsonItem::Str("x%".to_string()))),
    )];
    assert_eq!(sql_of(&anonymous(), &m, q), "SELECT *\nFROM t\nWHERE a LIKE 'x%'\n\n");
    let mut q2 = simple("t");
    q2.where_clause = vec![clause(
        Some(field(None, "a")),
        "regexp",
        Some(WhereValue::Item(JsonItem::Str("^b".to_string()))),
    )];
    assert_eq!(sql_of(&anonymous(), &m, q2), "SELECT *\nFROM t\nWHERE a regexp '^b'\n\n");
    let mut q3 = simple("t");
    q3.where_clause = vec![clause(Some(field(None, "a")), ">", Some(WhereValue::Item(num("-2.5"))))];
    assert_eq!(sql_of(&anonymous(), &m, q3), "SELECT *\nFROM t\nWHERE a > -2.5\n\n");
    let mut q4 = simple("t");
    q4.order_by = vec![OrderByClause { field: field(Some("t"), "b-c"), operator: "asc".to_string() }];
    assert_eq!(sql_of(&anonymous(), &m, q4), "SELECT *\nFROM t\n\nORDER BY t.b-c ASC\n");
    let mut q5 = simple("t");
    q5.where_clause = vec![clause(
        Some(field(None, "a")),
        "IN",
        Some(WhereValue::Array(vec![num("1"), num("2")])),
    )];
    let e5 = error_of(&anonymous(), &m, q5);
    assert_eq!((e5.status, e5.body.data.code), (501, 0o1_00_2_00));
}
