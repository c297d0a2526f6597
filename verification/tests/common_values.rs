use query_pro_bg_rust::catchers::{forbidden, notfound, unauthorized};
use query_pro_bg_rust::config::Config;
use query_pro_bg_rust::error_code::ErrorKind;
use query_pro_bg_rust::init_server_sync;
use query_pro_bg_rust::permissions::Permissions;
use query_pro_bg_rust::permission_map::TablePermissionMap;
use query_pro_bg_rust::resp::fail;

fn rule(table: &str, uid_read: Option<&str>, uid_write: Option<&str>, joiners: Option<&str>) -> Permissions {
    Permissions {
        table: table.to_string(),
        column: None,
        uid_read: uid_read.map(|s| s.to_string()),
        uid_write: uid_write.map(|s| s.to_string()),
        joiners: joiners.map(|s| s.to_string()),
    }
}

const SERIAL_A: &str = "0123456789abcdef0123456789abcdef";
const SERIAL_B: &str = "fedcba9876543210fedcba9876543210";

#[test]
fn error_codes_follow_the_octal_scheme() {
    assert_eq!(ErrorKind::GeneralRequestError.code(), 0);
    assert_eq!(ErrorKind::MissingParam.code(), 129);
    assert_eq!(ErrorKind::WrongParam.code(), 65);
    assert_eq!(ErrorKind::NotFound.code(), 129);
    assert_eq!(ErrorKind::LoginFailNotFound.code(), 577);
    assert_eq!(ErrorKind::TempTokenNotFound.code(), 578);
    assert_eq!(ErrorKind::TokenExpired.code(), 705);
    assert_eq!(ErrorKind::Unauthorized.code(), 641);
    assert_eq!(ErrorKind::Forbidden.code(), 642);
    assert_eq!(ErrorKind::FailToRegister.code(), 33345);
    assert_eq!(ErrorKind::GenTokenFailed.code(), 33345);
    assert_eq!(ErrorKind::UserWordExist.code(), 1281);
    assert_eq!(ErrorKind::VersionOutDate.code(), 2241);
    assert_eq!(ErrorKind::NotImplemented.code(), 32896);
    assert_eq!(ErrorKind::ServerError.code(), 32768);
}

#[test]
fn error_statuses_and_reasons() {
    assert_eq!(ErrorKind::WrongParam.status(), 400);
    assert_eq!(ErrorKind::NotFound.status(), 404);
    assert_eq!(ErrorKind::TokenExpired.status(), 403);
    assert_eq!(ErrorKind::Unauthorized.status(), 401);
    assert_eq!(ErrorKind::NotImplemented.status(), 501);
    assert_eq!(ErrorKind::ServerError.status(), 500);
    assert_eq!(ErrorKind::Unauthorized.reason(), "需要授权");
    assert_eq!(ErrorKind::NotImplemented.reason(), "还未实现");
    let c = ErrorKind::Forbidden.http_code();
    assert_eq!((c.code, c.status, c.reason), (642, 403, "禁止访问"));
}

#[test]
fn fail_builds_an_error_answer_with_its_serial() {
    let a = fail(ErrorKind::WrongParam, SERIAL_A.to_string());
    let b = fail(ErrorKind::WrongParam, SERIAL_B.to_string());
    assert_eq!(a.status, 400);
    assert_eq!(a.body.success, 0);
    assert_eq!(a.body.data.code, 65);
    assert_eq!(a.body.data.tip, Some("参数错误"));
    assert_eq!(a.body.data.serial, SERIAL_A);
    assert_eq!(b.body.data.serial, SERIAL_B);
}

#[test]
fn catchers_answer_401_403_404() {
    let u = unauthorized(SERIAL_A.to_string());
    assert_eq!((u.status, u.body.data.code, u.body.data.tip), (401, 641, Some("需要授权")));
    let f = forbidden(SERIAL_B.to_string());
    assert_eq!((f.status, f.body.data.code, f.body.data.tip), (403, 642, Some("禁止访问")));
    let n = notfound(SERIAL_A.to_string());
    assert_eq!((n.status, n.body.data.code, n.body.data.tip), (404, 129, Some("NotFound")));
    assert_eq!(n.body.success, 0);
    assert_eq!(n.body.data.serial, SERIAL_A);
    assert_eq!(f.body.data.serial, SERIAL_B);
}

#[test]
fn config_builder_defaults() {
    let c = Config::build().finalize();
    assert!(!c.with_logger);
    assert_eq!(c.port, 28686);
    assert!(c.permissions.is_empty());
}

#[test]
fn config_builder_setters() {
    let c = Config::build()
        .with_logger(true)
        .port(8888)
        .permissions(vec![rule("user_pri", Some("user_pri.uid"), Some("user_pri.uid"), None)])
        .finalize();
    assert!(c.with_logger);
    assert_eq!(c.port, 8888);
    assert_eq!(c.permissions.len(), 1);
    let copy = c.clone_permissions();
    assert_eq!(copy.len(), 1);
    assert_eq!(copy[0].table, "user_pri");
    assert_eq!(copy[0].uid_read.as_deref(), Some("user_pri.uid"));
}

#[test]
fn server_plan_groups_rules_by_lower_case_table() {
    let config = Config::build()
        .port(8000)
        .permissions(vec![
            rule("User_Pri", Some("a"), None, None),
            rule("coffee", Some("b"), None, None),
            rule("user_pri", Some("c"), None, None),
        ])
        .finalize();
    let plan = init_server_sync(config);
    assert!(!plan.init_logger);
    assert_eq!(plan.port, 8000);
    let m = &plan.table_permissions;
    let users = m.get(&"user_pri".to_string()).unwrap();
    assert_eq!(users.len(), 2);
    assert_eq!(users[0].uid_read.as_deref(), Some("a"));
    assert_eq!(users[1].uid_read.as_deref(), Some("c"));
    assert_eq!(m.get(&"coffee".to_string()).unwrap().len(), 1);
    assert!(m.get(&"User_Pri".to_string()).is_none());
    assert!(m.get(&"tea".to_string()).is_none());
}

#[test]
fn map_append_keeps_order() {
    let mut m = TablePermissionMap::new();
    assert!(m.get(&"t".to_string()).is_none());
    m.append("t".to_string(), rule("t", Some("x"), None, None));
    m.append("t".to_string(), rule("t", Some("y"), None, None));
    let g = m.get(&"t".to_string()).unwrap();
    assert_eq!(g.len(), 2);
    assert_eq!(g[1].uid_read.as_deref(), Some("y"));
}
