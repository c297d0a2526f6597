//! Rendering a structured query as SQL under the tables' permission rules.

use vstd::prelude::*;
use crate::error_code::ErrorKind;
use crate::permission_map::TablePermissionMap;
use crate::permissions::{Permissions, permissions_view};
use crate::query_structure::{
    QueryStructure, QueryStructureAction, Field, WhereClause, WhereValue, JsonItem, FromJoiner,
    FromJoinerOn, OrderByClause,
};
use crate::resp::{JsonResult, fail, success, is_error_of};
use crate::sql_spec::{
    SqlOutcome, then_append, joined, is_upper, upper_wrapped, field_ref, select_item,
    select_fields, order_item_outcome, order_outcome, limit_text, action_text,
    lemma_joined_step, lemma_joined_stuck, table_joiners, rules_joiners, rule_joiners,
    join_outcome, on_text, from_outcome, queried_tables, tables_joiners, connector,
    clause_outcome, clause_head, item_outcome, items_outcome, lemma_items_joined,
    permission_sql, conditions, condition, uid_text, table_uid_columns, rules_uid_columns,
    uid_columns, where_outcome, clause_step, clauses_outcome, lemma_rules_uid_columns_prefix,
    lemma_uid_columns_prefix, query_outcome, field_reads, reads_column, rule_applies,
    rendered_outcome, quote_escaped, lemma_quote_escaped_append, plain_name, plain_field,
    write_blocked, is_name_char, select_outcome, key_joiners, key_uid_columns, appended_conditions,
    lemma_permission_sql_append,
};
use crate::text::{join, lemma_join_push, append_decimal_i32, text_is, to_lowercase, lowercased};
use crate::uid::Uid;

verus! {

/// Why rendering stopped: a refusal with an error kind, or an abort.
pub enum Stop {
    Refused(ErrorKind),
    Abort,
}

/// Whether appending to `before` gave `after` and `r` as the outcome `o` says.
pub open spec fn reached(before: Seq<char>, after: Seq<char>, r: Result<(), Stop>, o: SqlOutcome) -> bool {
    match o {
        SqlOutcome::Text(t) => r is Ok && after == before + t,
        SqlOutcome::Refused(k) => r matches Err(Stop::Refused(k2)) && k2 == k,
        SqlOutcome::Abort => r matches Err(Stop::Abort),
    }
}

/// Whether `r` is what the outcome `o` says.
pub open spec fn produced(r: Result<String, Stop>, o: SqlOutcome) -> bool {
    match o {
        SqlOutcome::Text(t) => r matches Ok(s) && s@ == t,
        SqlOutcome::Refused(k) => r matches Err(Stop::Refused(k2)) && k2 == k,
        SqlOutcome::Abort => r matches Err(Stop::Abort),
    }
}

/// Appends a field as SQL.
fn append_field(sql: &mut String, f: &Field)
    ensures
        final(sql)@ == old(sql)@ + field_ref(*f),
{
    match &f.table {
        Some(t) => {
            sql.append(t.as_str());
            sql.append(".");
        },
        None => {},
    }
    sql.append(f.column.as_str());
    assert(final(sql)@ =~= old(sql)@ + field_ref(*f));
}

/// Whether the commands ask for upper case.
fn upper_case(commands: &Option<String>) -> (b: bool)
    ensures
        b == is_upper(*commands),
{
    match commands {
        Some(c) => text_is(c, "UPPER_CASE"),
        None => false,
    }
}

/// Appends a field, upper-cased where `up` holds.
fn append_field_upper(sql: &mut String, f: &Field, up: bool)
    ensures
        final(sql)@ == old(sql)@ + upper_wrapped(up, field_ref(*f)),
{
    if up {
        sql.append("UPPER(");
    }
    append_field(sql, f);
    if up {
        sql.append(")");
    }
    assert(final(sql)@ =~= old(sql)@ + upper_wrapped(up, field_ref(*f)));
}

/// The selected fields; a client call that selects a field which is not a plain
/// column reference is refused here, before any other part is rendered.
fn build_select_fields(q: &QueryStructure, by_remote: bool) -> (r: Result<String, Stop>)
    ensures
        produced(r, select_outcome(*q, by_remote)),
{
    let n = q.fields.len();
    if n == 0 {
        return Ok(String::from_str("*"));
    }
    let ghost items = q.fields@.map_values(|f: Field| select_item(f));
    let mut sql = String::new();
    let mut i: usize = 0;
    while i < n
        invariant
            n == q.fields.len(),
            i <= n,
            items == q.fields@.map_values(|f: Field| select_item(f)),
            sql@ == join(items.take(i as int), ", "@),
            by_remote ==> forall|k: int| 0 <= k < i ==> plain_field(#[trigger] q.fields@[k]),
        decreases n - i,
    {
        let f = &q.fields[i];
        if by_remote && !field_is_plain(f) {
            return Err(Stop::Refused(ErrorKind::WrongParam));
        }
        if i > 0 {
            sql.append(", ");
        }
        let up = upper_case(&f.commands);
        append_field_upper(&mut sql, f, up);
        proof {
            lemma_join_push(items.take(i as int), ", "@, items[i as int]);
            assert(items.take(i + 1) =~= items.take(i as int).push(items[i as int]));
            assert(sql@ =~= join(items.take(i + 1), ", "@));
        }
        i = i + 1;
    }
    assert(items.take(n as int) =~= items);
    Ok(sql)
}

/// Appends one ordering.
fn append_order_item(sql: &mut String, o: &OrderByClause) -> (r: Result<(), Stop>)
    ensures
        reached(old(sql)@, final(sql)@, r, order_item_outcome(*o)),
{
    append_field(sql, &o.field);
    sql.append(" ");
    if text_is(&o.operator, "desc") {
        sql.append("DESC");
    } else if text_is(&o.operator, "asc") || text_is(&o.operator, "") {
        sql.append("ASC");
    } else {
        return Err(Stop::Refused(ErrorKind::WrongParam));
    }
    assert(final(sql)@ =~= old(sql)@ + (field_ref(o.field) + " "@ + (if o.operator@ == "desc"@ {
        "DESC"@
    } else {
        "ASC"@
    })));
    Ok(())
}

/// The ORDER BY clause.
fn build_order_by_clause(q: &QueryStructure) -> (r: Result<String, Stop>)
    ensures
        produced(r, order_outcome(*q)),
{
    let n = q.order_by.len();
    if n == 0 {
        return Ok(String::new());
    }
    let ghost os = q.order_by@.map_values(|o: OrderByClause| order_item_outcome(o));
    let mut sql = String::from_str("ORDER BY ");
    let ghost base = sql@;
    let ghost mut acc: Seq<char> = Seq::empty();
    let mut i: usize = 0;
    while i < n
        invariant
            n == q.order_by.len(),
            i <= n,
            os == q.order_by@.map_values(|o: OrderByClause| order_item_outcome(o)),
            base == "ORDER BY "@,
            joined(os.take(i as int), ", "@) == SqlOutcome::Text(acc),
            sql@ == base + acc,
        decreases n - i,
    {
        if i > 0 {
            sql.append(", ");
        }
        let r = append_order_item(&mut sql, &q.order_by[i]);
        proof {
            lemma_joined_step(os, ", "@, i as int);
        }
        match r {
            Err(e) => {
                proof {
                    lemma_joined_stuck(os, ", "@, i + 1);
                }
                return Err(e);
            },
            Ok(()) => {},
        }
        proof {
            assert(os[i as int] == order_item_outcome(q.order_by@[i as int]));
            match os[i as int] {
                SqlOutcome::Text(t) => {
                    if i == 0 {
                        acc = t;
                    } else {
                        acc = acc + ", "@ + t;
                    }
                    assert(sql@ =~= base + acc);
                },
                _ => {},
            }
        }
        i = i + 1;
    }
    assert(os.take(n as int) =~= os);
    Ok(sql)
}

/// The LIMIT clause.
fn build_limit_clause(q: &QueryStructure) -> (s: String)
    ensures
        s@ == limit_text(*q),
{
    match q.limit {
        Some(l) => {
            if l != -1 {
                let mut s = String::from_str("LIMIT ");
                append_decimal_i32(&mut s, l);
                s
            } else {
                String::new()
            }
        },
        None => String::new(),
    }
}

/// The name of the action.
fn action_name(a: &QueryStructureAction) -> (s: &'static str)
    ensures
        s@ == action_text(*a),
{
    match a {
        QueryStructureAction::SELECT => "SELECT",
        QueryStructureAction::UPDATE => "UPDATE",
        QueryStructureAction::DELETE => "DELETE",
    }
}

/// Whether a selected field reads `column` of the table under `key`.
pub fn field_reads_column(f: &Field, key: &String, column: &String) -> (b: bool)
    ensures
        b == field_reads(*f, key@, column@),
{
    let fc = to_lowercase(f.column.as_str());
    let cc = to_lowercase(column.as_str());
    if fc != cc {
        return false;
    }
    match &f.table {
        Some(t) => {
            let tk = to_lowercase(t.as_str());
            tk == *key
        },
        None => true,
    }
}

/// Whether the selected fields read `column` of the table under `key`.
pub fn fields_read_column(fields: &Vec<Field>, key: &String, column: &String) -> (b: bool)
    ensures
        b == reads_column(fields@, key@, column@),
{
    if fields.len() == 0 {
        return true;
    }
    let mut i: usize = 0;
    while i < fields.len()
        invariant
            i <= fields.len(),
            forall|k: int| 0 <= k < i ==> !field_reads(#[trigger] fields@[k], key@, column@),
        decreases fields.len() - i,
    {
        if field_reads_column(&fields[i], key, column) {
            return true;
        }
        i = i + 1;
    }
    false
}

/// Whether a rule of the table under `key` applies to a query selecting `fields`.
pub fn rule_applies_to(p: &Permissions, key: &String, fields: &Vec<Field>) -> (b: bool)
    ensures
        b == rule_applies(p@, key@, fields@),
{
    match &p.column {
        Some(c) => fields_read_column(fields, key, c),
        None => true,
    }
}

/// Appends the joins that the rules of `table` add; the rules are those under
/// its lower-cased name.
fn append_table_joiners(
    sql: &mut String,
    map: &TablePermissionMap,
    table: &String,
    select: bool,
    fields: &Vec<Field>,
)
    ensures
        final(sql)@ == old(sql)@ + table_joiners(map@, table@, select, fields@),
{
    let key = to_lowercase(table.as_str());
    append_key_joiners(sql, map, &key, select, fields);
}

/// Appends the joins that the rules under `key` add to a query selecting
/// `fields`: those of the rules that apply and control the action (reading for a
/// SELECT, writing else), in order.
pub fn append_key_joiners(
    sql: &mut String,
    map: &TablePermissionMap,
    key: &String,
    select: bool,
    fields: &Vec<Field>,
)
    ensures
        final(sql)@ == old(sql)@ + key_joiners(map@, key@, select, fields@),
{
    let ghost start = sql@;
    match map.get(key) {
        None => {
            assert(sql@ =~= start + key_joiners(map@, key@, select, fields@));
        },
        Some(perms) => {
            let ghost ps = permissions_view(perms@);
            let mut j: usize = 0;
            assert(rules_joiners(ps.take(0), select, key@, fields@) =~= Seq::<char>::empty());
            while j < perms.len()
                invariant
                    j <= perms.len(),
                    ps == permissions_view(perms@),
                    sql@ == start + rules_joiners(ps.take(j as int), select, key@, fields@),
                decreases perms.len() - j,
            {
                let p = &perms[j];
                let ghost before = sql@;
                if rule_applies_to(p, key, fields) {
                    match &p.joiners {
                        Some(jn) => {
                            let controls = if select {
                                p.uid_read.is_some()
                            } else {
                                p.uid_write.is_some()
                            };
                            if controls {
                                sql.append(" ");
                                sql.append(jn.as_str());
                            }
                        },
                        None => {},
                    }
                }
                proof {
                    assert(ps.take(j + 1).drop_last() =~= ps.take(j as int));
                    assert(ps[j as int] == perms@[j as int]@);
                    assert(sql@ =~= before + rule_joiners(ps[j as int], select, key@, fields@));
                    assert(sql@ =~= start + rules_joiners(ps.take(j + 1), select, key@, fields@));
                }
                j = j + 1;
            }
            assert(ps.take(perms.len() as int) =~= ps);
        },
    }
}

/// Appends one joined table.
fn append_join(sql: &mut String, j: &FromJoiner) -> (r: Result<(), Stop>)
    ensures
        reached(old(sql)@, final(sql)@, r, join_outcome(*j)),
{
    if !text_is(&j.join_type, "LEFT_JOIN") {
        return Err(Stop::Refused(ErrorKind::NotImplemented));
    }
    let n = j.on.len();
    if n == 0 {
        return Err(Stop::Abort);
    }
    sql.append(" LEFT JOIN ");
    sql.append(j.table.as_str());
    sql.append(" ON ");
    let ghost base = sql@;
    let ghost items = j.on@.map_values(|o: FromJoinerOn| on_text(o));
    let mut i: usize = 0;
    while i < n
        invariant
            n == j.on.len(),
            i <= n,
            items == j.on@.map_values(|o: FromJoinerOn| on_text(o)),
            sql@ == base + join(items.take(i as int), " AND "@),
        decreases n - i,
    {
        if i > 0 {
            sql.append(" AND ");
        }
        let o = &j.on[i];
        append_field(sql, &o.left);
        sql.append(" = ");
        append_field(sql, &o.right);
        proof {
            lemma_join_push(items.take(i as int), " AND "@, items[i as int]);
            assert(items.take(i + 1) =~= items.take(i as int).push(items[i as int]));
            assert(sql@ =~= base + join(items.take(i + 1), " AND "@));
        }
        i = i + 1;
    }
    assert(items.take(n as int) =~= items);
    assert(final(sql)@ =~= old(sql)@ + (" LEFT JOIN "@ + j.table@ + " ON "@ + join(items, " AND "@)));
    Ok(())
}

/// The FROM clause (without the word FROM).
fn build_from_clause(map: &TablePermissionMap, q: &QueryStructure) -> (r: Result<String, Stop>)
    ensures
        produced(r, from_outcome(map@, *q)),
{
    let mut sql = String::new();
    sql.append(q.from.main.as_str());
    let select = q.action == QueryStructureAction::SELECT;
    let ghost tables = queried_tables(*q);
    let ghost main = q.from.main@;
    append_table_joiners(&mut sql, map, &q.from.main, select, &q.fields);
    proof {
        assert(tables.take(1).drop_last() =~= Seq::<Seq<char>>::empty());
        assert(tables[0] == main);
        assert(tables.take(1).last() == main);
        assert(tables_joiners(map@, tables.take(1).drop_last(), select, q.fields@) =~= Seq::<char>::empty());
        assert(sql@ =~= main + tables_joiners(map@, tables.take(1), select, q.fields@));
    }
    let n = q.from.joins.len();
    let mut i: usize = 0;
    while i < n
        invariant
            n == q.from.joins.len(),
            i <= n,
            tables == queried_tables(*q),
            main == q.from.main@,
            select == (q.action == QueryStructureAction::SELECT),
            sql@ == main + tables_joiners(map@, tables.take(i + 1), select, q.fields@),
        decreases n - i,
    {
        let ghost before = sql@;
        append_table_joiners(&mut sql, map, &q.from.joins[i].table, select, &q.fields);
        proof {
            assert(tables.take(i + 2).drop_last() =~= tables.take(i + 1));
            assert(tables[i + 1] == q.from.joins@[i as int].table@);
            assert(sql@ =~= main + tables_joiners(map@, tables.take(i + 2), select, q.fields@));
        }
        i = i + 1;
    }
    assert(tables.take(n + 1) =~= tables);
    let ghost base = sql@;
    let ghost os = q.from.joins@.map_values(|j: FromJoiner| join_outcome(j));
    let ghost mut acc: Seq<char> = Seq::empty();
    i = 0;
    while i < n
        invariant
            n == q.from.joins.len(),
            i <= n,
            os == q.from.joins@.map_values(|j: FromJoiner| join_outcome(j)),
            joined(os.take(i as int), Seq::empty()) == SqlOutcome::Text(acc),
            sql@ == base + acc,
        decreases n - i,
    {
        let r = append_join(&mut sql, &q.from.joins[i]);
        proof {
            lemma_joined_step(os, Seq::empty(), i as int);
        }
        match r {
            Err(e) => {
                proof {
                    lemma_joined_stuck(os, Seq::empty(), i + 1);
                }
                return Err(e);
            },
            Ok(()) => {},
        }
        proof {
            assert(os[i as int] == join_outcome(q.from.joins@[i as int]));
            match os[i as int] {
                SqlOutcome::Text(t) => {
                    if i == 0 {
                        acc = t;
                    } else {
                        acc = acc + Seq::empty() + t;
                    }
                    assert(sql@ =~= base + acc);
                },
                _ => {},
            }
        }
        i = i + 1;
    }
    assert(os.take(n as int) =~= os);
    assert(sql@ =~= (main + tables_joiners(map@, tables, select, q.fields@)) + acc);
    Ok(sql)
}

/// The connector of a list value for an operator.
fn connector_of(op: &String) -> (c: Option<&'static str>)
    ensures
        match c {
            Some(t) => connector(op@) == Some(t@),
            None => connector(op@) is None,
        },
{
    if text_is(op, "in") || text_is(op, "not in") {
        Some(", ")
    } else if text_is(op, "between") || text_is(op, "not between") || text_is(op, "or") {
        Some(" AND ")
    } else {
        None
    }
}

/// Appends one condition.
fn parse_where_clause(sql: &mut String, wc: &WhereClause) -> (r: Result<(), Stop>)
    ensures
        reached(old(sql)@, final(sql)@, r, clause_outcome(*wc)),
    decreases wc,
{
    let up = upper_case(&wc.commands);
    match &wc.field {
        Some(f) => {
            append_field_upper(sql, f, up);
        },
        None => {},
    }
    sql.append(" ");
    sql.append(wc.operator.as_str());
    sql.append(" ");
    let ghost head = sql@;
    assert(head =~= old(sql)@ + clause_head(*wc));
    match &wc.value {
        None => Ok(()),
        Some(WhereValue::Item(it)) => {
            let r = handle_item(sql, it, up);
            proof {
                assert(clause_outcome(*wc) == then_append(SqlOutcome::Text(clause_head(*wc)), item_outcome(*it, up)));
                match item_outcome(*it, up) {
                    SqlOutcome::Text(t) => {
                        assert(final(sql)@ =~= old(sql)@ + (clause_head(*wc) + t));
                    },
                    _ => {},
                }
            }
            r
        },
        Some(WhereValue::Array(arr)) => {
            sql.append("(");
            let c = match connector_of(&wc.operator) {
                Some(c) => c,
                None => {
                    return Err(Stop::Refused(ErrorKind::NotImplemented));
                },
            };
            if arr.len() == 0 {
                return Err(Stop::Abort);
            }
            let r = append_items(sql, arr, up, c);
            match r {
                Err(e) => {
                    return Err(e);
                },
                Ok(()) => {},
            }
            sql.append(")");
            proof {
                assert(clause_outcome(*wc) == then_append(
                    SqlOutcome::Text(clause_head(*wc) + "("@),
                    then_append(items_outcome(arr@, up, c@), SqlOutcome::Text(")"@)),
                ));
                match items_outcome(arr@, up, c@) {
                    SqlOutcome::Text(t) => {
                        assert(final(sql)@ =~= old(sql)@ + (clause_head(*wc) + "("@ + (t + ")"@)));
                    },
                    _ => {},
                }
            }
            Ok(())
        },
    }
}

/// Appends the items of a list value, joined by the connector.
fn append_items(sql: &mut String, arr: &Vec<JsonItem>, up: bool, c: &str) -> (r: Result<(), Stop>)
    ensures
        reached(old(sql)@, final(sql)@, r, items_outcome(arr@, up, c@)),
    decreases arr@,
{
    let n = arr.len();
    let ghost base = sql@;
    let ghost os = arr@.map_values(|it: JsonItem| item_outcome(it, up));
    proof {
        lemma_items_joined(arr@, up, c@);
    }
    let ghost mut acc: Seq<char> = Seq::empty();
    let mut i: usize = 0;
    while i < n
        invariant
            n == arr.len(),
            i <= n,
            os == arr@.map_values(|it: JsonItem| item_outcome(it, up)),
            items_outcome(arr@, up, c@) == joined(os, c@),
            joined(os.take(i as int), c@) == SqlOutcome::Text(acc),
            sql@ == base + acc,
        decreases n - i,
    {
        if i > 0 {
            sql.append(c);
        }
        let r = handle_item(sql, &arr[i], up);
        proof {
            lemma_joined_step(os, c@, i as int);
        }
        match r {
            Err(e) => {
                proof {
                    lemma_joined_stuck(os, c@, i + 1);
                }
                return Err(e);
            },
            Ok(()) => {},
        }
        proof {
            assert(os[i as int] == item_outcome(arr@[i as int], up));
            match os[i as int] {
                SqlOutcome::Text(t) => {
                    if i == 0 {
                        acc = t;
                    } else {
                        acc = acc + c@ + t;
                    }
                    assert(sql@ =~= base + acc);
                },
                _ => {},
            }
        }
        i = i + 1;
    }
    assert(os.take(n as int) =~= os);
    Ok(())
}

/// Appends one item of a value.
fn handle_item(sql: &mut String, it: &JsonItem, up: bool) -> (r: Result<(), Stop>)
    ensures
        reached(old(sql)@, final(sql)@, r, item_outcome(*it, up)),
    decreases it,
{
    match it {
        JsonItem::Clause(c) => {
            if up {
                sql.append("UPPER(");
            }
            let ghost mid = sql@;
            let r = parse_where_clause(sql, c);
            proof {
                let pre: Seq<char> = if up { "UPPER("@ } else { Seq::empty() };
                assert(mid =~= old(sql)@ + pre);
                assert(item_outcome(*it, up) == then_append(SqlOutcome::Text(pre), clause_outcome(**c)));
                match clause_outcome(**c) {
                    SqlOutcome::Text(t) => {
                        assert(final(sql)@ =~= old(sql)@ + (pre + t));
                    },
                    _ => {},
                }
            }
            r
        },
        JsonItem::Unreadable => Err(Stop::Refused(ErrorKind::NotImplemented)),
        JsonItem::Null => {
            append_upper_text(sql, "null", up);
            Ok(())
        },
        JsonItem::Bool(b) => {
            if *b {
                append_upper_text(sql, "true", up);
            } else {
                append_upper_text(sql, "false", up);
            }
            Ok(())
        },
        JsonItem::Number(t) => {
            append_upper_text(sql, t.as_str(), up);
            Ok(())
        },
        JsonItem::Str(v) => {
            let ghost start = sql@;
            if up {
                sql.append("UPPER(");
            }
            sql.append("'");
            append_quote_escaped(sql, v);
            sql.append("'");
            if up {
                sql.append(")");
            }
            assert(final(sql)@ =~= start + upper_wrapped(up, "'"@ + quote_escaped(v@) + "'"@));
            Ok(())
        },
    }
}

/// Appends a text, upper-cased where `up` holds.
fn append_upper_text(sql: &mut String, t: &str, up: bool)
    ensures
        final(sql)@ == old(sql)@ + upper_wrapped(up, t@),
{
    if up {
        sql.append("UPPER(");
    }
    sql.append(t);
    if up {
        sql.append(")");
    }
    assert(final(sql)@ =~= old(sql)@ + upper_wrapped(up, t@));
}

/// Appends the permission conditions of the rules of `table` to those of the
/// tables before it (`columns`).
fn add_table_permission(
    sql: &mut String,
    map: &TablePermissionMap,
    table: &String,
    uid: &Option<String>,
    fields: &Vec<Field>,
    has_first: &mut bool,
    Ghost(columns): Ghost<Seq<Seq<char>>>,
) -> (r: Result<(), Stop>)
    requires
        old(sql)@ == "WHERE "@ + permission_sql(columns, uid_text(*uid)),
        *old(has_first) == (columns.len() > 0),
        columns.len() > 0 ==> uid is Some,
    ensures
        ({
            let more = columns + table_uid_columns(map@, table@, fields@);
            match r {
                Ok(()) => {
                    &&& final(sql)@ == "WHERE "@ + permission_sql(more, uid_text(*uid))
                    &&& *final(has_first) == (more.len() > 0)
                    &&& more.len() > 0 ==> uid is Some
                },
                Err(e) => {
                    &&& e == Stop::Refused(ErrorKind::Unauthorized)
                    &&& uid is None
                    &&& more.len() > 0
                },
            }
        }),
{
    let key = to_lowercase(table.as_str());
    let r = append_key_conditions(sql, map, &key, uid, fields, has_first);
    proof {
        let kc = key_uid_columns(map@, key@, fields@);
        lemma_permission_sql_append(columns, kc, uid_text(*uid));
        if r is Ok {
            assert(final(sql)@ =~= "WHERE "@ + permission_sql(columns + kc, uid_text(*uid)));
        }
    }
    r
}

/// Appends the permission conditions of the rules under `key` that apply to a
/// query selecting `fields`: `column = uid` for each uid column they read by,
/// joined by ` AND `, and led by ` AND ` where conditions already stand
/// (`has_first`). A caller who is not logged in is refused as unauthorized where
/// there is any such condition.
#[verifier::rlimit(30)]
pub fn append_key_conditions(
    sql: &mut String,
    map: &TablePermissionMap,
    key: &String,
    uid: &Option<String>,
    fields: &Vec<Field>,
    has_first: &mut bool,
) -> (r: Result<(), Stop>)
    ensures
        ({
            let cols = key_uid_columns(map@, key@, fields@);
            match r {
                Ok(()) => {
                    &&& final(sql)@ == old(sql)@ + appended_conditions(cols, uid_text(*uid), *old(has_first))
                    &&& *final(has_first) == (*old(has_first) || cols.len() > 0)
                    &&& cols.len() > 0 ==> uid is Some
                },
                Err(e) => {
                    &&& e == Stop::Refused(ErrorKind::Unauthorized)
                    &&& uid is None
                    &&& cols.len() > 0
                },
            }
        }),
{
    let ghost ut = uid_text(*uid);
    let ghost start = sql@;
    let ghost lead = *has_first;
    match map.get(key) {
        None => {
            assert(sql@ =~= start + appended_conditions(key_uid_columns(map@, key@, fields@), ut, lead));
            Ok(())
        },
        Some(perms) => {
            let ghost ps = permissions_view(perms@);
            assert(rules_uid_columns(ps.take(0), key@, fields@) =~= Seq::<Seq<char>>::empty());
            assert(sql@ =~= start + appended_conditions(Seq::empty(), ut, lead));
            let mut j: usize = 0;
            while j < perms.len()
                invariant
                    j <= perms.len(),
                    ps == permissions_view(perms@),
                    ps == map@[key@],
                    map@.contains_key(key@),
                    ut == uid_text(*uid),
                    sql@ == start + appended_conditions(rules_uid_columns(ps.take(j as int), key@, fields@), ut, lead),
                    *has_first == (lead || rules_uid_columns(ps.take(j as int), key@, fields@).len() > 0),
                    rules_uid_columns(ps.take(j as int), key@, fields@).len() > 0 ==> uid is Some,
                decreases perms.len() - j,
            {
                let ghost cols = rules_uid_columns(ps.take(j as int), key@, fields@);
                proof {
                    assert(ps.take(j + 1).drop_last() =~= ps.take(j as int));
                    assert(ps[j as int] == perms@[j as int]@);
                }
                let applies = rule_applies_to(&perms[j], key, fields);
                match &perms[j].uid_read {
                    Some(ur) if applies => {
                        let ghost before = sql@;
                        if *has_first {
                            sql.append(" AND ");
                        } else {
                            *has_first = true;
                        }
                        sql.append(ur.as_str());
                        sql.append(" = ");
                        match uid {
                            Some(u) => {
                                sql.append(u.as_str());
                            },
                            None => {
                                proof {
                                    lemma_rules_uid_columns_prefix(ps, key@, fields@, j + 1);
                                    assert(ps.take(ps.len() as int) =~= ps);
                                }
                                return Err(Stop::Refused(ErrorKind::Unauthorized));
                            },
                        }
                        proof {
                            let cols2 = cols.push(ur@);
                            assert(rules_uid_columns(ps.take(j + 1), key@, fields@) =~= cols2);
                            assert(conditions(cols2, ut) =~= conditions(cols, ut).push(condition(ur@, ut)));
                            lemma_join_push(conditions(cols, ut), " AND "@, condition(ur@, ut));
                            if cols.len() == 0 {
                                assert(conditions(cols, ut) =~= Seq::<Seq<char>>::empty());
                            }
                            assert(sql@ =~= start + appended_conditions(cols2, ut, lead));
                        }
                    },
                    _ => {
                        assert(rules_uid_columns(ps.take(j + 1), key@, fields@) =~= cols);
                    },
                }
                j = j + 1;
            }
            assert(ps.take(perms.len() as int) =~= ps);
            Ok(())
        },
    }
}

/// The WHERE clause.
fn build_where_clause(uid: &Uid, map: &TablePermissionMap, q: &QueryStructure) -> (r: Result<String, Stop>)
    ensures
        produced(r, where_outcome(*uid, map@, *q)),
{
    let mut sql = String::from_str("WHERE ");
    let mut has_first = false;
    let ghost tables = queried_tables(*q);
    let ghost ut = uid_text(uid.uid_sql_val_str);
    let ghost all_columns = uid_columns(map@, tables, q.fields@);
    proof {
        assert(conditions(Seq::empty(), ut) =~= Seq::<Seq<char>>::empty());
        assert(sql@ =~= "WHERE "@ + permission_sql(Seq::empty(), ut));
        assert(tables.take(1).drop_last() =~= Seq::<Seq<char>>::empty());
        assert(tables.take(1).last() == q.from.main@);
        assert(uid_columns(map@, tables.take(1).drop_last(), q.fields@) =~= Seq::<Seq<char>>::empty());
        assert(uid_columns(map@, tables.take(1), q.fields@) =~= Seq::<Seq<char>>::empty() + table_uid_columns(map@, q.from.main@, q.fields@));
    }
    let r0 = add_table_permission(
        &mut sql,
        map,
        &q.from.main,
        &uid.uid_sql_val_str,
        &q.fields,
        &mut has_first,
        Ghost(Seq::empty()),
    );
    match r0 {
        Err(e) => {
            proof {
                lemma_uid_columns_prefix(map@, tables, q.fields@, 1);
            }
            return Err(e);
        },
        Ok(()) => {},
    }
    let n = q.from.joins.len();
    let mut i: usize = 0;
    while i < n
        invariant
            n == q.from.joins.len(),
            i <= n,
            tables == queried_tables(*q),
            ut == uid_text(uid.uid_sql_val_str),
            sql@ == "WHERE "@ + permission_sql(uid_columns(map@, tables.take(i + 1), q.fields@), ut),
            has_first == (uid_columns(map@, tables.take(i + 1), q.fields@).len() > 0),
            uid_columns(map@, tables.take(i + 1), q.fields@).len() > 0 ==> uid.uid_sql_val_str is Some,
        decreases n - i,
    {
        proof {
            assert(tables.take(i + 2).drop_last() =~= tables.take(i + 1));
            assert(tables[i + 1] == q.from.joins@[i as int].table@);
        }
        let ri = add_table_permission(
            &mut sql,
            map,
            &q.from.joins[i].table,
            &uid.uid_sql_val_str,
            &q.fields,
            &mut has_first,
            Ghost(uid_columns(map@, tables.take(i + 1), q.fields@)),
        );
        match ri {
            Err(e) => {
                proof {
                    lemma_uid_columns_prefix(map@, tables, q.fields@, i + 2);
                }
                return Err(e);
            },
            Ok(()) => {},
        }
        i = i + 1;
    }
    assert(tables.take(n + 1) =~= tables);
    let pc = has_first;
    assert(pc ==> uid.uid_sql_val_str is Some);
    let wcs = &q.where_clause;
    let m = wcs.len();
    if m == 0 {
        if !has_first {
            return Ok(String::new());
        }
        return Ok(sql);
    }
    let ghost base = sql@;
    let ghost steps = Seq::new(m as nat, |k: int| clause_step(wcs@, pc, k));
    let ghost mut acc: Seq<char> = Seq::empty();
    let mut k: usize = 0;
    while k < m
        invariant
            m == wcs.len(),
            k <= m,
            wcs == &q.where_clause,
            steps == Seq::new(m as nat, |k: int| clause_step(wcs@, pc, k)),
            has_first == (pc || k > 0),
            all_columns == uid_columns(map@, queried_tables(*q), q.fields@),
            pc == (all_columns.len() > 0),
            pc ==> uid.uid_sql_val_str is Some,
            ut == uid_text(uid.uid_sql_val_str),
            base == "WHERE "@ + permission_sql(all_columns, ut),
            joined(steps.take(k as int), Seq::empty()) == SqlOutcome::Text(acc),
            sql@ == base + acc,
        decreases m - k,
    {
        proof {
            lemma_joined_step(steps, Seq::empty(), k as int);
        }
        if has_first {
            let skip = text_is(&wcs[k].operator, "or") || (k > 1 && text_is(&wcs[k - 1].operator, "or"));
            if skip {
                proof {
                    assert(steps[k as int] == SqlOutcome::Text(Seq::empty()));
                    if k > 0 {
                        acc = acc + Seq::empty() + Seq::empty();
                    }
                    assert(sql@ =~= base + acc);
                }
                k = k + 1;
                continue;
            }
            if k == 0 {
                sql.append(" AND (");
            } else {
                sql.append(" AND ");
            }
        } else {
            has_first = true;
        }
        let ghost pre: Seq<char> = if !(pc || k > 0) {
            Seq::empty()
        } else if k == 0 {
            " AND ("@
        } else {
            " AND "@
        };
        let r = parse_where_clause(&mut sql, &wcs[k]);
        proof {
            assert(steps[k as int] == then_append(SqlOutcome::Text(pre), clause_outcome(wcs@[k as int])));
        }
        match r {
            Err(e) => {
                proof {
                    lemma_joined_stuck(steps, Seq::empty(), k + 1);
                    assert(clauses_outcome(q.where_clause@, pc) == joined(steps, Seq::empty()));
                    assert(pc == (all_columns.len() > 0));
                }
                return Err(e);
            },
            Ok(()) => {},
        }
        proof {
            match clause_outcome(wcs@[k as int]) {
                SqlOutcome::Text(t) => {
                    if k == 0 {
                        acc = pre + t;
                    } else {
                        acc = acc + Seq::empty() + (pre + t);
                    }
                    assert(sql@ =~= base + acc);
                },
                _ => {},
            }
        }
        k = k + 1;
    }
    if pc {
        sql.append(")");
    }
    assert(steps.take(m as int) =~= steps);
    assert(sql@ =~= "WHERE "@ + permission_sql(all_columns, ut) + (acc + (if pc { ")"@ } else { Seq::<char>::empty() })));
    Ok(sql)
}

/// The SQL of a query under the rules `permissions`.
#[verifier::rlimit(40)]
fn render_query(
    uid: &Uid,
    permissions: &TablePermissionMap,
    query_structure: &QueryStructure,
    by_remote: bool,
) -> (r: Result<String, Stop>)
    ensures
        produced(r, rendered_outcome(*uid, permissions@, *query_structure, by_remote)),
{
    let q = query_structure;
    let select_fields = match build_select_fields(q, by_remote) {
        Ok(s) => s,
        Err(e) => {
            return Err(e);
        },
    };
    let from_clause = match build_from_clause(permissions, q) {
        Ok(s) => s,
        Err(e) => {
            return Err(e);
        },
    };
    let where_clause = match build_where_clause(uid, permissions, q) {
        Ok(s) => s,
        Err(e) => {
            return Err(e);
        },
    };
    let order_by_clause = match build_order_by_clause(q) {
        Ok(s) => s,
        Err(e) => {
            return Err(e);
        },
    };
    let limit_clause = build_limit_clause(q);
    let mut sql = String::new();
    sql.append(action_name(&q.action));
    sql.append(" ");
    sql.append(select_fields.as_str());
    sql.append("\nFROM ");
    sql.append(from_clause.as_str());
    sql.append("\n");
    sql.append(where_clause.as_str());
    sql.append("\n");
    sql.append(order_by_clause.as_str());
    sql.append("\n");
    sql.append(limit_clause.as_str());
    assert(sql@ =~= action_text(q.action) + " "@ + (select_fields@ + ("\nFROM "@ + (from_clause@ + ("\n"@ + (where_clause@ + ("\n"@ + (order_by_clause@ + ("\n"@ + limit_clause@)))))))));
    Ok(sql)
}

/// The SQL of a query, or why there is none. Permission control applies where the
/// query came from a remote client (`by_remote`).
fn query_structure_to_sql(
    uid: &Uid,
    permissions: &TablePermissionMap,
    query_structure: &QueryStructure,
    by_remote: bool,
) -> (r: Result<String, Stop>)
    ensures
        produced(r, query_outcome(*uid, permissions@, *query_structure, by_remote)),
{
    if by_remote && write_is_blocked(permissions, query_structure) {
        return Err(Stop::Refused(ErrorKind::Forbidden));
    }
    let empty = TablePermissionMap::new();
    let map = if by_remote {
        permissions
    } else {
        &empty
    };
    render_query(uid, map, query_structure, by_remote)
}

/// Appends a text as the body of an SQL string literal, each `'` doubled.
fn append_quote_escaped(sql: &mut String, v: &String)
    ensures
        final(sql)@ == old(sql)@ + quote_escaped(v@),
{
    let t = v.as_str();
    let n = t.unicode_len();
    let ghost start = sql@;
    proof {
        reveal_strlit("''");
        assert(quote_escaped(v@.take(0)) =~= Seq::<char>::empty());
    }
    let mut i: usize = 0;
    while i < n
        invariant
            n == v@.len(),
            t@ == v@,
            i <= n,
            sql@ == start + quote_escaped(v@.take(i as int)),
        decreases n - i,
    {
        let c = t.get_char(i);
        let ghost before = sql@;
        proof {
            reveal_strlit("''");
        }
        if c == '\'' {
            sql.append("''");
            assert(sql@ =~= before + seq!['\'', '\'']);
        } else {
            let piece = t.substring_char(i, i + 1);
            assert(piece@ =~= seq![c]);
            sql.append(piece);
            assert(sql@ =~= before + seq![c]);
        }
        proof {
            assert(v@.take(i + 1) =~= v@.take(i as int) + seq![c]);
            lemma_quote_escaped_append(v@.take(i as int), seq![c]);
            assert(seq![c].skip(1) =~= Seq::<char>::empty());
            assert(quote_escaped(seq![c]) =~= (if c == '\'' {
                seq!['\'', '\'']
            } else {
                seq![c]
            }) + quote_escaped(Seq::<char>::empty()));
            assert(sql@ =~= start + quote_escaped(v@.take(i + 1)));
        }
        i = i + 1;
    }
    assert(v@.take(n as int) =~= v@);
}

/// Whether a name is plain (with `.` allowed where `dots` holds).
fn name_is_plain(s: &String, dots: bool) -> (b: bool)
    ensures
        b == plain_name(s@, dots),
{
    let t = s.as_str();
    let n = t.unicode_len();
    if n == 0 {
        return false;
    }
    let mut i: usize = 0;
    while i < n
        invariant
            n == s@.len(),
            t@ == s@,
            i <= n,
            forall|k: int| 0 <= k < i ==> (is_name_char(#[trigger] s@[k]) || (dots && s@[k] == '.')),
        decreases n - i,
    {
        let c = t.get_char(i);
        let name_char = ('a' <= c && c <= 'z') || ('A' <= c && c <= 'Z') || ('0' <= c && c <= '9')
            || c == '_' || c == '$' || c >= '\u{80}';
        proof {
            assert(name_char == is_name_char(c)) by {
                assert(c >= '\u{80}' <==> (c as u32) >= 0x80);
            }
        }
        if !(name_char || (dots && c == '.')) {
            return false;
        }
        i = i + 1;
    }
    true
}

/// Whether a field is a plain column reference.
fn field_is_plain(f: &Field) -> (b: bool)
    ensures
        b == plain_field(*f),
{
    let column_plain = name_is_plain(&f.column, false) || text_is(&f.column, "*");
    match &f.table {
        Some(t) => column_plain && name_is_plain(t, true),
        None => column_plain,
    }
}

/// Whether a write would touch a table with no rule.
fn write_is_blocked(map: &TablePermissionMap, q: &QueryStructure) -> (b: bool)
    ensures
        b == write_blocked(map@, *q),
{
    if q.action == QueryStructureAction::SELECT {
        return false;
    }
    let ghost tables = queried_tables(*q);
    let mut keys: Vec<String> = Vec::new();
    keys.push(to_lowercase(q.from.main.as_str()));
    let mut i: usize = 0;
    while i < q.from.joins.len()
        invariant
            i <= q.from.joins.len(),
            tables == queried_tables(*q),
            keys@.len() == i + 1,
            forall|k: int| 0 <= k < i + 1 ==> #[trigger] keys@[k]@ == lowercased(tables[k]),
        decreases q.from.joins.len() - i,
    {
        assert(tables[i + 1] == q.from.joins@[i as int].table@);
        keys.push(to_lowercase(q.from.joins[i].table.as_str()));
        i = i + 1;
    }
    let b = keys_missing(map, &keys);
    proof {
        assert(tables.len() == keys@.len());
        if b {
            let k = choose|k: int| 0 <= k < keys@.len() && !map@.contains_key(#[trigger] keys@[k]@);
            assert(!map@.contains_key(lowercased(tables[k])));
        } else {
            assert forall|k: int| 0 <= k < tables.len() implies map@.contains_key(lowercased(#[trigger] tables[k])) by {
                assert(map@.contains_key(keys@[k]@));
            }
        }
    }
    b
}

/// Whether some key has no rule.
pub fn keys_missing(map: &TablePermissionMap, keys: &Vec<String>) -> (b: bool)
    ensures
        b == exists|k: int| 0 <= k < keys@.len() && !map@.contains_key(#[trigger] keys@[k]@),
{
    let mut i: usize = 0;
    while i < keys.len()
        invariant
            i <= keys.len(),
            forall|k: int| 0 <= k < i ==> map@.contains_key(#[trigger] keys@[k]@),
        decreases keys.len() - i,
    {
        if map.get(&keys[i]).is_none() {
            return true;
        }
        i = i + 1;
    }
    false
}

/// Renders a query as SQL, as `query` does, or gives `None` on the
/// queries where rendering aborts (a left join with no equality, or an
/// empty list value for an operator that takes one).
pub fn try_query(
    uid: &Uid,
    permissions: &TablePermissionMap,
    query_structure: QueryStructure,
    by_remote: bool,
    serial: String,
) -> (r: Option<JsonResult<Vec<String>>>)
    ensures
        match query_outcome(*uid, permissions@, query_structure, by_remote) {
            SqlOutcome::Text(t) => r matches Some(Ok(d)) && d.success == 1 && d.data@.len() == 1
                && d.data@[0]@ == t,
            SqlOutcome::Refused(k) => r matches Some(Err(e)) && is_error_of(e, k)
                && e.body.data.serial == serial,
            SqlOutcome::Abort => r is None,
        },
{
    match query_structure_to_sql(uid, permissions, &query_structure, by_remote) {
        Ok(sql) => {
            let mut v: Vec<String> = Vec::new();
            v.push(sql);
            Some(Ok(success(v)))
        },
        Err(Stop::Refused(k)) => Some(Err(fail(k, serial))),
        Err(Stop::Abort) => None,
    }
}

/// Renders a query as SQL: on success the answer holds the one SQL text; a refused
/// query is answered with its error, identified by `serial`. Where the call comes
/// from a client (`by_remote`), every selected field must be a plain column
/// reference and the tables' permission rules apply: a write to a table with no
/// rule is forbidden, and reading a table whose read rule applies is limited to
/// the caller's rows and needs a login.
pub fn query(
    uid: &Uid,
    permissions: &TablePermissionMap,
    query_structure: QueryStructure,
    by_remote: bool,
    serial: String,
) -> (r: JsonResult<Vec<String>>)
    requires
        !(query_outcome(*uid, permissions@, query_structure, by_remote) is Abort),
    ensures
        match query_outcome(*uid, permissions@, query_structure, by_remote) {
            SqlOutcome::Text(t) => r matches Ok(d) && d.success == 1 && d.data@.len() == 1
                && d.data@[0]@ == t,
            SqlOutcome::Refused(k) => r matches Err(e) && is_error_of(e, k)
                && e.body.data.serial == serial,
            SqlOutcome::Abort => false,
        },
{
    let ghost o = query_outcome(*uid, permissions@, query_structure, by_remote);
    let spare = serial.clone();
    match try_query(uid, permissions, query_structure, by_remote, serial) {
        Some(r) => r,
        None => {
            proof {
                assert(o is Abort);
            }
            Err(fail(ErrorKind::ServerError, spare))
        },
    }
}

} // verus!
