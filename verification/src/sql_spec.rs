//! What the SQL text of a structured query is, and when a query is refused.

use vstd::prelude::*;
use crate::error_code::ErrorKind;
use crate::permissions::PermissionsView;
use crate::query_structure::{
    QueryStructure, QueryStructureAction, Field, WhereClause, WhereValue, JsonItem, FromJoiner,
    FromJoinerOn, OrderByClause,
};
use crate::uid::Uid;
use crate::text::{join, decimal_int, lowercased, lemma_join_push};

verus! {

/// What rendering (part of) a query comes to: SQL text; a refusal with an error
/// kind; or an abort, where rendering stops without an answer (it indexes
/// the last element of an empty list).
pub enum SqlOutcome {
    Text(Seq<char>),
    Refused(ErrorKind),
    Abort,
}

/// `a` followed by `b`: the texts concatenated, or the first of them that is not
/// text.
pub open spec fn then_append(a: SqlOutcome, b: SqlOutcome) -> SqlOutcome {
    match a {
        SqlOutcome::Text(x) => match b {
            SqlOutcome::Text(y) => SqlOutcome::Text(x + y),
            other => other,
        },
        other => other,
    }
}

/// The outcomes in order, their texts joined by `sep`; the first that is not text
/// where there is one.
pub open spec fn joined(os: Seq<SqlOutcome>, sep: Seq<char>) -> SqlOutcome
    decreases os.len(),
{
    if os.len() == 0 {
        SqlOutcome::Text(Seq::empty())
    } else if os.len() == 1 {
        os[0]
    } else {
        then_append(then_append(joined(os.drop_last(), sep), SqlOutcome::Text(sep)), os.last())
    }
}

/// Whether the commands ask for upper case.
pub open spec fn is_upper(commands: Option<String>) -> bool {
    commands matches Some(c) && c@ == "UPPER_CASE"@
}

/// `s` inside `UPPER(..)` where `up` holds.
pub open spec fn upper_wrapped(up: bool, s: Seq<char>) -> Seq<char> {
    if up {
        "UPPER("@ + s + ")"@
    } else {
        s
    }
}

/// A text as the body of an SQL string literal: each `'` doubled.
pub open spec fn quote_escaped(s: Seq<char>) -> Seq<char>
    decreases s.len(),
{
    if s.len() == 0 {
        Seq::empty()
    } else {
        (if s[0] == '\'' {
            seq!['\'', '\'']
        } else {
            seq![s[0]]
        }) + quote_escaped(s.skip(1))
    }
}

/// Escaping a concatenation escapes each part.
pub proof fn lemma_quote_escaped_append(a: Seq<char>, b: Seq<char>)
    ensures
        quote_escaped(a + b) == quote_escaped(a) + quote_escaped(b),
    decreases a.len(),
{
    if a.len() == 0 {
        assert(a + b =~= b);
        assert(quote_escaped(a) + quote_escaped(b) =~= quote_escaped(b));
    } else {
        assert((a + b).skip(1) =~= a.skip(1) + b);
        lemma_quote_escaped_append(a.skip(1), b);
        assert((a + b)[0] == a[0]);
        assert(quote_escaped(a + b) =~= quote_escaped(a) + quote_escaped(b));
    }
}

/// A field as SQL: `table.column`, or `column` where it names no table.
pub open spec fn field_ref(f: Field) -> Seq<char> {
    match f.table {
        Some(t) => t@ + "."@ + f.column@,
        None => f.column@,
    }
}

/// One selected field, upper-cased where its commands ask for it.
pub open spec fn select_item(f: Field) -> Seq<char> {
    upper_wrapped(is_upper(f.commands), field_ref(f))
}

/// The selected fields: `*` where the query names none, else the fields joined by
/// `, `.
pub open spec fn select_fields(q: QueryStructure) -> Seq<char> {
    if q.fields.len() == 0 {
        "*"@
    } else {
        join(q.fields@.map_values(|f: Field| select_item(f)), ", "@)
    }
}

/// The tables of the query: the main table, then each joined table.
pub open spec fn queried_tables(q: QueryStructure) -> Seq<Seq<char>> {
    seq![q.from.main@] + q.from.joins@.map_values(|j: FromJoiner| j.table@)
}

/// Whether a column of the table under `key` is read by the selected fields: all
/// are where the query names no field; else a field reads it where its column
/// names it and it names no table or that table (names compared lower-cased).
pub open spec fn field_reads(f: Field, key: Seq<char>, column: Seq<char>) -> bool {
    &&& lowercased(f.column@) == lowercased(column)
    &&& match f.table {
        Some(t) => lowercased(t@) == key,
        None => true,
    }
}

/// Whether the selected fields read `column` of the table under `key`.
pub open spec fn reads_column(fields: Seq<Field>, key: Seq<char>, column: Seq<char>) -> bool {
    fields.len() == 0 || exists|i: int| 0 <= i < fields.len() && #[trigger] field_reads(fields[i], key, column)
}

/// Whether a rule of the table under `key` applies to a query selecting `fields`:
/// a rule for the whole table always does; a rule for one column does where the
/// query reads that column.
pub open spec fn rule_applies(p: PermissionsView, key: Seq<char>, fields: Seq<Field>) -> bool {
    match p.column {
        Some(c) => reads_column(fields, key, c),
        None => true,
    }
}

/// The joins a rule adds to the FROM clause: its `joiners`, where it applies, has
/// them and controls the action (reading for a SELECT, writing for the others).
pub open spec fn rule_joiners(
    p: PermissionsView,
    select: bool,
    key: Seq<char>,
    fields: Seq<Field>,
) -> Seq<char> {
    if !rule_applies(p, key, fields) {
        Seq::empty()
    } else {
    match p.joiners {
        Some(j) => if (if select {
            p.uid_read is Some
        } else {
            p.uid_write is Some
        }) {
            " "@ + j
        } else {
            Seq::empty()
        },
        None => Seq::empty(),
    }
    }
}

/// The joins the rules add, in order.
pub open spec fn rules_joiners(
    ps: Seq<PermissionsView>,
    select: bool,
    key: Seq<char>,
    fields: Seq<Field>,
) -> Seq<char>
    decreases ps.len(),
{
    if ps.len() == 0 {
        Seq::empty()
    } else {
        rules_joiners(ps.drop_last(), select, key, fields) + rule_joiners(ps.last(), select, key, fields)
    }
}

/// The joins the rules of one table add; none where the table has no rule. The
/// rules are those under the lower-cased name of the table.
pub open spec fn table_joiners(
    map: Map<Seq<char>, Seq<PermissionsView>>,
    table: Seq<char>,
    select: bool,
    fields: Seq<Field>,
) -> Seq<char> {
    key_joiners(map, lowercased(table), select, fields)
}

/// The joins the rules under `key` add; none where there is no such rule.
pub open spec fn key_joiners(
    map: Map<Seq<char>, Seq<PermissionsView>>,
    key: Seq<char>,
    select: bool,
    fields: Seq<Field>,
) -> Seq<char> {
    if map.contains_key(key) {
        rules_joiners(map[key], select, key, fields)
    } else {
        Seq::empty()
    }
}

/// The joins the rules of the tables add, table by table.
pub open spec fn tables_joiners(
    map: Map<Seq<char>, Seq<PermissionsView>>,
    tables: Seq<Seq<char>>,
    select: bool,
    fields: Seq<Field>,
) -> Seq<char>
    decreases tables.len(),
{
    if tables.len() == 0 {
        Seq::empty()
    } else {
        tables_joiners(map, tables.drop_last(), select, fields) + table_joiners(
            map,
            tables.last(),
            select,
            fields,
        )
    }
}

/// One equality of a join: `left = right`.
pub open spec fn on_text(o: FromJoinerOn) -> Seq<char> {
    field_ref(o.left) + " = "@ + field_ref(o.right)
}

/// One joined table: ` LEFT JOIN table ON a = b AND ...`; any other kind of join is
/// not implemented; a left join with no equality aborts.
pub open spec fn join_outcome(j: FromJoiner) -> SqlOutcome {
    if j.join_type@ == "LEFT_JOIN"@ {
        if j.on.len() == 0 {
            SqlOutcome::Abort
        } else {
            SqlOutcome::Text(
                " LEFT JOIN "@ + j.table@ + " ON "@ + join(
                    j.on@.map_values(|o: FromJoinerOn| on_text(o)),
                    " AND "@,
                ),
            )
        }
    } else {
        SqlOutcome::Refused(ErrorKind::NotImplemented)
    }
}

/// The FROM clause (without the word FROM): the main table, the joins that the
/// tables' rules add, then each joined table in order.
pub open spec fn from_outcome(map: Map<Seq<char>, Seq<PermissionsView>>, q: QueryStructure) -> SqlOutcome {
    then_append(
        SqlOutcome::Text(
            q.from.main@ + tables_joiners(
                map,
                queried_tables(q),
                q.action == QueryStructureAction::SELECT,
                q.fields@,
            ),
        ),
        joined(q.from.joins@.map_values(|j: FromJoiner| join_outcome(j)), Seq::empty()),
    )
}

/// The uid column a rule reads by, where it has one and applies.
pub open spec fn rule_uid_column(p: PermissionsView, key: Seq<char>, fields: Seq<Field>) -> Seq<Seq<char>> {
    match p.uid_read {
        Some(u) => if rule_applies(p, key, fields) {
            seq![u]
        } else {
            Seq::empty()
        },
        None => Seq::empty(),
    }
}

/// The uid columns that the applying rules read by, in order.
pub open spec fn rules_uid_columns(ps: Seq<PermissionsView>, key: Seq<char>, fields: Seq<Field>) -> Seq<Seq<char>>
    decreases ps.len(),
{
    if ps.len() == 0 {
        Seq::empty()
    } else {
        rules_uid_columns(ps.drop_last(), key, fields) + rule_uid_column(ps.last(), key, fields)
    }
}

/// The uid columns that the rules of one table read by; the rules are those under
/// the lower-cased name of the table.
pub open spec fn table_uid_columns(
    map: Map<Seq<char>, Seq<PermissionsView>>,
    table: Seq<char>,
    fields: Seq<Field>,
) -> Seq<Seq<char>> {
    key_uid_columns(map, lowercased(table), fields)
}

/// The uid columns that the rules under `key` read by.
pub open spec fn key_uid_columns(
    map: Map<Seq<char>, Seq<PermissionsView>>,
    key: Seq<char>,
    fields: Seq<Field>,
) -> Seq<Seq<char>> {
    if map.contains_key(key) {
        rules_uid_columns(map[key], key, fields)
    } else {
        Seq::empty()
    }
}

/// The uid columns that the rules of the tables read by, table by table.
pub open spec fn uid_columns(
    map: Map<Seq<char>, Seq<PermissionsView>>,
    tables: Seq<Seq<char>>,
    fields: Seq<Field>,
) -> Seq<Seq<char>>
    decreases tables.len(),
{
    if tables.len() == 0 {
        Seq::empty()
    } else {
        uid_columns(map, tables.drop_last(), fields) + table_uid_columns(map, tables.last(), fields)
    }
}

/// The text of the caller's uid; empty for a caller who is not logged in.
pub open spec fn uid_text(uid: Option<String>) -> Seq<char> {
    match uid {
        Some(u) => u@,
        None => Seq::empty(),
    }
}

/// One permission condition: `column = uid`.
pub open spec fn condition(column: Seq<char>, uid: Seq<char>) -> Seq<char> {
    column + " = "@ + uid
}

/// The permission conditions, one per uid column.
pub open spec fn conditions(columns: Seq<Seq<char>>, uid: Seq<char>) -> Seq<Seq<char>> {
    columns.map_values(|c: Seq<char>| condition(c, uid))
}

/// The permission conditions joined by ` AND `.
pub open spec fn permission_sql(columns: Seq<Seq<char>>, uid: Seq<char>) -> Seq<char> {
    join(conditions(columns, uid), " AND "@)
}

/// Permission conditions appended to others: none for no column; else ` AND `
/// where conditions (`lead`) precede them, then the conditions joined by ` AND `.
pub open spec fn appended_conditions(columns: Seq<Seq<char>>, uid: Seq<char>, lead: bool) -> Seq<char> {
    if columns.len() == 0 {
        Seq::empty()
    } else {
        (if lead {
            " AND "@
        } else {
            Seq::empty()
        }) + join(conditions(columns, uid), " AND "@)
    }
}

/// Joining two lists: the first joined, the separator where both have items, the
/// second joined.
pub proof fn lemma_join_append(xs: Seq<Seq<char>>, ys: Seq<Seq<char>>, sep: Seq<char>)
    ensures
        join(xs + ys, sep) == join(xs, sep) + (if xs.len() > 0 && ys.len() > 0 {
            sep
        } else {
            Seq::empty()
        }) + join(ys, sep),
    decreases ys.len(),
{
    if ys.len() == 0 {
        assert(xs + ys =~= xs);
        assert(join(xs, sep) + Seq::<char>::empty() + join(ys, sep) =~= join(xs, sep));
    } else {
        let y = ys.last();
        let ys0 = ys.drop_last();
        lemma_join_append(xs, ys0, sep);
        assert(xs + ys =~= (xs + ys0).push(y));
        assert(ys =~= ys0.push(y));
        lemma_join_push(xs + ys0, sep, y);
        lemma_join_push(ys0, sep, y);
        if ys0.len() == 0 {
            assert(xs + ys0 =~= xs);
            assert(join(ys0, sep) =~= Seq::<char>::empty());
        }
        assert(join(xs + ys, sep) =~= join(xs, sep) + (if xs.len() > 0 && ys.len() > 0 {
            sep
        } else {
            Seq::empty()
        }) + join(ys, sep));
    }
}

/// The permission conditions of more columns: those before, then the new ones
/// appended.
pub proof fn lemma_permission_sql_append(a: Seq<Seq<char>>, b: Seq<Seq<char>>, uid: Seq<char>)
    ensures
        permission_sql(a + b, uid) == permission_sql(a, uid) + appended_conditions(b, uid, a.len() > 0),
{
    assert(conditions(a + b, uid) =~= conditions(a, uid) + conditions(b, uid));
    lemma_join_append(conditions(a, uid), conditions(b, uid), " AND "@);
    if b.len() == 0 {
        assert(join(conditions(b, uid), " AND "@) =~= Seq::<char>::empty());
        assert(permission_sql(a + b, uid) =~= permission_sql(a, uid) + appended_conditions(b, uid, a.len() > 0));
    } else {
        assert(permission_sql(a + b, uid) =~= permission_sql(a, uid) + appended_conditions(b, uid, a.len() > 0));
    }
}

/// The connector of a list value for an operator: `, ` for `in` and `not in`,
/// ` AND ` for `between`, `not between` and `or`; none for any other.
pub open spec fn connector(op: Seq<char>) -> Option<Seq<char>> {
    if op == "in"@ || op == "not in"@ {
        Some(", "@)
    } else if op == "between"@ || op == "not between"@ || op == "or"@ {
        Some(" AND "@)
    } else {
        None
    }
}

/// The start of a condition: its field (upper-cased where asked), then the operator
/// between spaces.
pub open spec fn clause_head(wc: WhereClause) -> Seq<char> {
    let field = match wc.field {
        Some(f) => upper_wrapped(is_upper(wc.commands), field_ref(f)),
        None => Seq::empty(),
    };
    field + " "@ + wc.operator@ + " "@
}

/// A condition as SQL. A list value stands in brackets, its items joined by the
/// operator's connector; an operator with no connector is not implemented, and an
/// empty list aborts.
pub open spec fn clause_outcome(wc: WhereClause) -> SqlOutcome
    decreases wc,
{
    let up = is_upper(wc.commands);
    let head = clause_head(wc);
    match wc.value {
        None => SqlOutcome::Text(head),
        Some(WhereValue::Item(it)) => then_append(SqlOutcome::Text(head), item_outcome(it, up)),
        Some(WhereValue::Array(arr)) => match connector(wc.operator@) {
            None => SqlOutcome::Refused(ErrorKind::NotImplemented),
            Some(c) => if arr@.len() == 0 {
                SqlOutcome::Abort
            } else {
                then_append(
                    SqlOutcome::Text(head + "("@),
                    then_append(items_outcome(arr@, up, c), SqlOutcome::Text(")"@)),
                )
            },
        },
    }
}

/// One item of a value as SQL: a string in single quotes, a number as its text,
/// `true`, `false`, `null`, each upper-cased where asked; a nested condition after
/// `UPPER(` where asked; anything else is not implemented. The `UPPER(` before a
/// nested condition is never closed: that is how the server has always rendered
/// it, and no document asks for another form.
pub open spec fn item_outcome(it: JsonItem, up: bool) -> SqlOutcome
    decreases it,
{
    match it {
        JsonItem::Null => SqlOutcome::Text(upper_wrapped(up, "null"@)),
        JsonItem::Bool(b) => SqlOutcome::Text(upper_wrapped(up, if b { "true"@ } else { "false"@ })),
        JsonItem::Number(t) => SqlOutcome::Text(upper_wrapped(up, t@)),
        JsonItem::Str(s) => SqlOutcome::Text(upper_wrapped(up, "'"@ + quote_escaped(s@) + "'"@)),
        JsonItem::Clause(c) => then_append(
            SqlOutcome::Text(if up { "UPPER("@ } else { Seq::empty() }),
            clause_outcome(*c),
        ),
        JsonItem::Unreadable => SqlOutcome::Refused(ErrorKind::NotImplemented),
    }
}

/// The items of a list value, joined by the connector.
pub open spec fn items_outcome(items: Seq<JsonItem>, up: bool, c: Seq<char>) -> SqlOutcome
    decreases items,
{
    if items.len() == 0 {
        SqlOutcome::Text(Seq::empty())
    } else if items.len() == 1 {
        item_outcome(items[0], up)
    } else {
        then_append(
            then_append(items_outcome(items.drop_last(), up, c), SqlOutcome::Text(c)),
            item_outcome(items.last(), up),
        )
    }
}

/// Whether the condition at `i` is added where a condition already stands: it is
/// left out where its operator, or (from the third condition on) the operator
/// before it, is `or`.
pub open spec fn clause_skipped(wcs: Seq<WhereClause>, i: int) -> bool {
    wcs[i].operator@ == "or"@ || (i > 1 && wcs[i - 1].operator@ == "or"@)
}

/// The condition at `i` with what precedes it. `pc` tells whether permission
/// conditions stand before the client's: from then on each condition is preceded
/// by ` AND ` (the first by ` AND (`), or left out where `clause_skipped`. Where
/// permission conditions stand and the first condition is left out, ` AND (` is
/// never written while the closing `)` of `where_outcome` is, so the brackets do
/// not balance: that is how the server has always rendered it, and no document
/// asks for another form.
pub open spec fn clause_step(wcs: Seq<WhereClause>, pc: bool, i: int) -> SqlOutcome {
    let has_first = pc || i > 0;
    if has_first && clause_skipped(wcs, i) {
        SqlOutcome::Text(Seq::empty())
    } else {
        then_append(
            SqlOutcome::Text(
                if !has_first {
                    Seq::empty()
                } else if i == 0 {
                    " AND ("@
                } else {
                    " AND "@
                },
            ),
            clause_outcome(wcs[i]),
        )
    }
}

/// The client's conditions, one step each.
pub open spec fn clauses_outcome(wcs: Seq<WhereClause>, pc: bool) -> SqlOutcome {
    joined(Seq::new(wcs.len(), |i: int| clause_step(wcs, pc, i)), Seq::empty())
}

/// The WHERE clause. The rules of the queried tables come first: each uid column
/// they read by must equal the caller's uid, and a caller who is not logged in is
/// refused as unauthorized where there is any. The client's conditions follow,
/// inside brackets after the permission conditions. With neither, there is no
/// WHERE clause.
pub open spec fn where_outcome(
    uid: Uid,
    map: Map<Seq<char>, Seq<PermissionsView>>,
    q: QueryStructure,
) -> SqlOutcome {
    let columns = uid_columns(map, queried_tables(q), q.fields@);
    let pc = columns.len() > 0;
    if pc && uid.uid_sql_val_str is None {
        SqlOutcome::Refused(ErrorKind::Unauthorized)
    } else {
        let perm = permission_sql(columns, uid_text(uid.uid_sql_val_str));
        if q.where_clause.len() == 0 {
            SqlOutcome::Text(if pc { "WHERE "@ + perm } else { Seq::empty() })
        } else {
            then_append(
                SqlOutcome::Text("WHERE "@ + perm),
                then_append(
                    clauses_outcome(q.where_clause@, pc),
                    SqlOutcome::Text(if pc { ")"@ } else { Seq::empty() }),
                ),
            )
        }
    }
}

/// One ordering: the field, then `DESC` for `desc` and `ASC` for `asc` or nothing;
/// any other operator is a wrong parameter.
pub open spec fn order_item_outcome(o: OrderByClause) -> SqlOutcome {
    let op = o.operator@;
    if op == "desc"@ {
        SqlOutcome::Text(field_ref(o.field) + " "@ + "DESC"@)
    } else if op == "asc"@ || op == ""@ {
        SqlOutcome::Text(field_ref(o.field) + " "@ + "ASC"@)
    } else {
        SqlOutcome::Refused(ErrorKind::WrongParam)
    }
}

/// The ORDER BY clause: none where the query orders by nothing, else `ORDER BY `
/// and the orderings joined by `, `.
pub open spec fn order_outcome(q: QueryStructure) -> SqlOutcome {
    if q.order_by.len() == 0 {
        SqlOutcome::Text(Seq::empty())
    } else {
        then_append(
            SqlOutcome::Text("ORDER BY "@),
            joined(q.order_by@.map_values(|o: OrderByClause| order_item_outcome(o)), ", "@),
        )
    }
}

/// The LIMIT clause: `LIMIT n` for a limit other than -1, else none.
pub open spec fn limit_text(q: QueryStructure) -> Seq<char> {
    match q.limit {
        Some(l) => if l != -1 {
            "LIMIT "@ + decimal_int(l as int)
        } else {
            Seq::empty()
        },
        None => Seq::empty(),
    }
}

/// The name of the action.
pub open spec fn action_text(a: QueryStructureAction) -> Seq<char> {
    match a {
        QueryStructureAction::SELECT => "SELECT"@,
        QueryStructureAction::UPDATE => "UPDATE"@,
        QueryStructureAction::DELETE => "DELETE"@,
    }
}

/// The selected fields: a call from a client (`remote`) that selects a field which
/// is not a plain column reference (a sub-query, say) is refused as a wrong
/// parameter, for the sake of permission control; else the fields as given.
pub open spec fn select_outcome(q: QueryStructure, remote: bool) -> SqlOutcome {
    if remote && exists|k: int| 0 <= k < q.fields.len() && !plain_field(#[trigger] q.fields@[k]) {
        SqlOutcome::Refused(ErrorKind::WrongParam)
    } else {
        SqlOutcome::Text(select_fields(q))
    }
}

/// The SQL of a query under the rules `map`, on lines of its own: the action and
/// the fields; FROM and the FROM clause; the WHERE clause; the ORDER BY clause;
/// the LIMIT clause. The fields are rendered first, then the FROM clause, the
/// WHERE clause and the ORDER BY clause; the first of them that is refused or
/// aborts decides the outcome.
pub open spec fn rendered_outcome(
    uid: Uid,
    map: Map<Seq<char>, Seq<PermissionsView>>,
    q: QueryStructure,
    remote: bool,
) -> SqlOutcome {
    then_append(
        SqlOutcome::Text(action_text(q.action) + " "@),
        then_append(
            select_outcome(q, remote),
            then_append(
                SqlOutcome::Text("\nFROM "@),
                then_append(
                    from_outcome(map, q),
                    then_append(
                        SqlOutcome::Text("\n"@),
                        then_append(
                            where_outcome(uid, map, q),
                            then_append(
                                SqlOutcome::Text("\n"@),
                                then_append(order_outcome(q), SqlOutcome::Text("\n"@ + limit_text(q))),
                            ),
                        ),
                    ),
                ),
            ),
        ),
    )
}

/// Whether a character may stand in a plain name: an ASCII letter or digit, `_`,
/// `$`, or any character beyond ASCII. Spaces, quotes, brackets, commas,
/// semicolons, dashes and other operators may not.
pub open spec fn is_name_char(c: char) -> bool {
    ('a' <= c <= 'z') || ('A' <= c <= 'Z') || ('0' <= c <= '9') || c == '_' || c == '$' || (c as u32) >= 0x80
}

/// Whether a name is plain: not empty, and of name characters only (and `.`
/// where `dots` allows a qualified name).
pub open spec fn plain_name(s: Seq<char>, dots: bool) -> bool {
    s.len() > 0 && forall|i: int| 0 <= i < s.len() ==> (is_name_char(#[trigger] s[i]) || (dots && s[i] == '.'))
}

/// Whether a field is a plain column reference: a plain column name or `*`, after a
/// plain (possibly schema-qualified) table name where it names one.
pub open spec fn plain_field(f: Field) -> bool {
    &&& (plain_name(f.column@, false) || f.column@ == "*"@)
    &&& match f.table {
        Some(t) => plain_name(t@, true),
        None => true,
    }
}

/// Whether a write would touch a table with no rule: such a table is public to
/// read and not writable.
pub open spec fn write_blocked(map: Map<Seq<char>, Seq<PermissionsView>>, q: QueryStructure) -> bool {
    &&& q.action != QueryStructureAction::SELECT
    &&& exists|k: int|
        0 <= k < queried_tables(q).len() && !map.contains_key(lowercased(#[trigger] queried_tables(q)[k]))
}

/// The SQL of a query under the rules `map`. Permission control applies to a call
/// from a client (`remote`) only: then a write to a table with no rule is
/// forbidden, a selected field must be a plain column reference, and the rules add
/// their joins and conditions; a local call is rendered with no rule.
pub open spec fn query_outcome(
    uid: Uid,
    map: Map<Seq<char>, Seq<PermissionsView>>,
    q: QueryStructure,
    remote: bool,
) -> SqlOutcome {
    if remote && write_blocked(map, q) {
        SqlOutcome::Refused(ErrorKind::Forbidden)
    } else {
        rendered_outcome(uid, if remote { map } else { Map::empty() }, q, remote)
    }
}

/// One more outcome: the first, or the outcomes so far, the separator and it.
pub proof fn lemma_joined_step(os: Seq<SqlOutcome>, sep: Seq<char>, i: int)
    requires
        0 <= i < os.len(),
    ensures
        joined(os.take(i + 1), sep) == if i == 0 {
            os[0]
        } else {
            then_append(then_append(joined(os.take(i), sep), SqlOutcome::Text(sep)), os[i])
        },
{
    assert(os.take(i + 1).drop_last() =~= os.take(i));
}

/// Once the outcomes so far are not text, no later outcome changes that.
pub proof fn lemma_joined_stuck(os: Seq<SqlOutcome>, sep: Seq<char>, i: int)
    requires
        0 <= i <= os.len(),
        !(joined(os.take(i), sep) is Text),
    ensures
        joined(os, sep) == joined(os.take(i), sep),
    decreases os.len() - i,
{
    if i == os.len() {
        assert(os.take(i) =~= os);
    } else {
        lemma_joined_step(os, sep, i);
        lemma_joined_stuck(os, sep, i + 1);
    }
}

/// The items of a list value, as outcomes joined by the connector.
pub proof fn lemma_items_joined(items: Seq<JsonItem>, up: bool, c: Seq<char>)
    ensures
        items_outcome(items, up, c) == joined(items.map_values(|it: JsonItem| item_outcome(it, up)), c),
    decreases items.len(),
{
    let os = items.map_values(|it: JsonItem| item_outcome(it, up));
    if items.len() > 1 {
        lemma_items_joined(items.drop_last(), up, c);
        assert(items.drop_last().map_values(|it: JsonItem| item_outcome(it, up)) =~= os.drop_last());
    }
}

/// The uid columns of a prefix of the rules are no more than those of all.
pub proof fn lemma_rules_uid_columns_prefix(ps: Seq<PermissionsView>, key: Seq<char>, fields: Seq<Field>, k: int)
    requires
        0 <= k <= ps.len(),
    ensures
        rules_uid_columns(ps.take(k), key, fields).len() <= rules_uid_columns(ps, key, fields).len(),
    decreases ps.len() - k,
{
    if k == ps.len() {
        assert(ps.take(k) =~= ps);
    } else {
        lemma_rules_uid_columns_prefix(ps, key, fields, k + 1);
        assert(ps.take(k + 1).drop_last() =~= ps.take(k));
    }
}

/// The uid columns of a prefix of the tables are no more than those of all.
pub proof fn lemma_uid_columns_prefix(
    map: Map<Seq<char>, Seq<PermissionsView>>,
    ts: Seq<Seq<char>>,
    fields: Seq<Field>,
    k: int,
)
    requires
        0 <= k <= ts.len(),
    ensures
        uid_columns(map, ts.take(k), fields).len() <= uid_columns(map, ts, fields).len(),
    decreases ts.len() - k,
{
    if k == ts.len() {
        assert(ts.take(k) =~= ts);
    } else {
        lemma_uid_columns_prefix(map, ts, fields, k + 1);
        assert(ts.take(k + 1).drop_last() =~= ts.take(k));
    }
}

} // verus!
