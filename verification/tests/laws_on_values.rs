use query_pro_bg_rust::permissions::Permissions;
use query_pro_bg_rust::permission_map::TablePermissionMap;
use query_pro_bg_rust::query_service::query;
use query_pro_bg_rust::query_structure::{
    Field, JsonItem, QueryStructure, QueryStructureAction, QueryStructureFrom, WhereClause, WhereValue,
};
use query_pro_bg_rust::uid::Uid;

const SERIAL: &str = "00000000000000000000000000000000";

fn simple(main: &str) -> QueryStructure {
    QueryStructure {
        action: QueryStructureAction::SELECT,
        fields: vec![],
        from: QueryStructureFrom { main: main.to_string(), joins: vec![] },
        where_clause: vec![],
        order_by: vec![],
        limit: None,
    }
}

fn read_rule(table: &str, column: &str) -> Permissions {
    Permissions {
        table: table.to_string(),
        column: None,
        uid_read: Some(column.to_string()),
        uid_write: None,
        joiners: None,
    }
}

#[test]
fn table_without_rules_is_public() {
    let m = TablePermissionMap::from_permissions(vec![read_rule("private", "private.uid")]);
    let mut q = simple("public");
    q.where_clause = vec![WhereClause {
        field: Some(Field { table: None, column: "a".to_string(), commands: None }),
        operator: "=".to_string(),
        value: Some(WhereValue::Item(JsonItem::Number("1".to_string()))),
        commands: None,
    }];
    let r = query(&Uid { uid_sql_val_str: None }, &m, q, true, SERIAL.to_string());
    assert!(r.is_ok());
}

#[test]
fn read_rule_requires_login() {
    let m = TablePermissionMap::from_permissions(vec![read_rule("private", "private.uid")]);
    let r = query(&Uid { uid_sql_val_str: None }, &m, simple("private"), true, SERIAL.to_string());
    match r {
        Err(e) => assert_eq!((e.status, e.body.data.code), (401, 641)),
        Ok(_) => panic!("an anonymous caller read a private table"),
    }
}

#[test]
fn read_rules_lead_the_where_clause() {
    let m = TablePermissionMap::from_permissions(vec![
        read_rule("private", "private.uid"),
        read_rule("private", "private.owner"),
    ]);
    let mut q = simple("private");
    q.where_clause = vec![WhereClause {
        field: None,
        operator: "or".to_string(),
        value: Some(WhereValue::Item(JsonItem::Bool(true))),
        commands: None,
    }];
    let d = query(&Uid { uid_sql_val_str: Some("'u1'".to_string()) }, &m, q, true, SERIAL.to_string()).ok().unwrap();
    // A leading `or` condition is left out under permission control; the closing
    // bracket of the client's group is still written, as the server always did.
    assert_eq!(d.data[0], "SELECT *\nFROM private\nWHERE private.uid = 'u1' AND private.owner = 'u1')\n\n");
}

#[test]
fn client_conditions_form_one_group() {
    let m = TablePermissionMap::from_permissions(vec![read_rule("private", "private.uid")]);
    let mut q = simple("private");
    let cond = |op: &str, column: &str| WhereClause {
        field: Some(Field { table: None, column: column.to_string(), commands: None }),
        operator: op.to_string(),
        value: Some(WhereValue::Item(JsonItem::Number("1".to_string()))),
        commands: None,
    };
    q.where_clause = vec![cond("=", "a"), cond(">", "b")];
    let d = query(&Uid { uid_sql_val_str: Some("'u1'".to_string()) }, &m, q, true, SERIAL.to_string()).ok().unwrap();
    assert_eq!(d.data[0], "SELECT *\nFROM private\nWHERE private.uid = 'u1' AND (a = 1 AND b > 1)\n\n");
}
