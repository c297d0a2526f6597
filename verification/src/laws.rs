//! What holds of every rendered query: the permission rules decide who may read
//! and write, and what a client sends cannot leave its place in the SQL.

use vstd::prelude::*;
use crate::error_code::ErrorKind;
use crate::permissions::PermissionsView;
use crate::query_structure::{
    QueryStructure, QueryStructureAction, Field, WhereClause, WhereValue, JsonItem, FromJoiner,
    FromJoinerOn, OrderByClause,
};
use crate::uid::Uid;
use crate::text::lowercased;
use crate::sql_spec::{
    SqlOutcome, then_append, joined, clause_outcome, item_outcome, items_outcome, clause_step,
    clauses_outcome, where_outcome, from_outcome, order_outcome, query_outcome, join_outcome,
    order_item_outcome, queried_tables, uid_columns, rules_uid_columns, table_uid_columns,
    rule_uid_column, rule_joiners, rule_applies, reads_column, permission_sql, uid_text,
    rendered_outcome, write_blocked, quote_escaped, is_upper, clause_head, connector,
    action_text, select_fields, limit_text, select_outcome, plain_field, select_item, on_text,
    tables_joiners,
};
use crate::text::{join, decimal_int};

verus! {

/// Whether an outcome is a refusal with `kind`.
pub open spec fn refused_as(o: SqlOutcome, kind: ErrorKind) -> bool {
    o == SqlOutcome::Refused(kind)
}

/// Whether the `j`-th rule of the `i`-th queried table (found by its lower-cased
/// name) reads by a uid column and applies to the query.
pub open spec fn applying_read_rule(
    map: Map<Seq<char>, Seq<PermissionsView>>,
    q: QueryStructure,
    i: int,
    j: int,
) -> bool {
    let key = lowercased(queried_tables(q)[i]);
    &&& 0 <= i < queried_tables(q).len()
    &&& map.contains_key(key)
    &&& 0 <= j < map[key].len()
    &&& map[key][j].uid_read is Some
    &&& rule_applies(map[key][j], key, q.fields@)
}

/// Joined outcomes of which none is a refusal with `kind` are none either.
proof fn lemma_joined_not_refused(os: Seq<SqlOutcome>, sep: Seq<char>, kind: ErrorKind)
    requires
        forall|i: int| 0 <= i < os.len() ==> !refused_as(#[trigger] os[i], kind),
    ensures
        !refused_as(joined(os, sep), kind),
{
    lemma_joined_never(os, sep, SqlOutcome::Refused(kind));
}

/// Joined outcomes of which none is a given refusal or abort are not it either.
proof fn lemma_joined_never(os: Seq<SqlOutcome>, sep: Seq<char>, bad: SqlOutcome)
    requires
        !(bad is Text),
        forall|i: int| 0 <= i < os.len() ==> #[trigger] os[i] != bad,
    ensures
        joined(os, sep) != bad,
    decreases os.len(),
{
    if os.len() > 1 {
        lemma_joined_never(os.drop_last(), sep, bad);
    }
}

/// Joined outcomes are text exactly where each is.
proof fn lemma_joined_text(os: Seq<SqlOutcome>, sep: Seq<char>)
    ensures
        joined(os, sep) is Text <==> forall|i: int| 0 <= i < os.len() ==> #[trigger] os[i] is Text,
    decreases os.len(),
{
    if os.len() > 1 {
        lemma_joined_text(os.drop_last(), sep);
        if joined(os, sep) is Text {
            assert forall|i: int| 0 <= i < os.len() implies #[trigger] os[i] is Text by {
                if i < os.len() - 1 {
                    assert(os.drop_last()[i] == os[i]);
                }
            }
        }
        if forall|i: int| 0 <= i < os.len() ==> #[trigger] os[i] is Text {
            assert forall|i: int| 0 <= i < os.drop_last().len() implies #[trigger] os.drop_last()[i] is Text by {
                assert(os.drop_last()[i] == os[i]);
            }
            assert(os[os.len() - 1] is Text);
        }
    }
}

/// Joined outcomes that are all text are the join of their texts.
proof fn lemma_joined_texts(os: Seq<SqlOutcome>, sep: Seq<char>)
    requires
        forall|i: int| 0 <= i < os.len() ==> #[trigger] os[i] is Text,
    ensures
        joined(os, sep) == SqlOutcome::Text(join(os.map_values(|o: SqlOutcome| o->Text_0), sep)),
    decreases os.len(),
{
    if os.len() > 1 {
        assert forall|i: int| 0 <= i < os.drop_last().len() implies #[trigger] os.drop_last()[i] is Text by {
            assert(os.drop_last()[i] == os[i]);
        }
        lemma_joined_texts(os.drop_last(), sep);
        assert(os.map_values(|o: SqlOutcome| o->Text_0).drop_last() =~= os.drop_last().map_values(
            |o: SqlOutcome| o->Text_0,
        ));
        assert(os[os.len() - 1] is Text);
    }
}

/// Joined text begins with the text of the first outcome.
proof fn lemma_joined_begins_with_first(os: Seq<SqlOutcome>, sep: Seq<char>)
    requires
        os.len() > 0,
        joined(os, sep) is Text,
        os[0] is Text,
    ensures
        (joined(os, sep)->Text_0).len() >= (os[0]->Text_0).len(),
        (joined(os, sep)->Text_0).subrange(0, (os[0]->Text_0).len() as int) == os[0]->Text_0,
    decreases os.len(),
{
    if os.len() > 1 {
        lemma_joined_text(os, sep);
        lemma_joined_text(os.drop_last(), sep);
        assert(os.drop_last()[0] == os[0]);
        assert forall|i: int| 0 <= i < os.drop_last().len() implies #[trigger] os.drop_last()[i] is Text by {
            assert(os.drop_last()[i] == os[i]);
        }
        lemma_joined_begins_with_first(os.drop_last(), sep);
        let t = joined(os.drop_last(), sep)->Text_0;
        let x = os[0]->Text_0;
        assert((t + sep + (os.last()->Text_0)).subrange(0, x.len() as int) =~= t.subrange(0, x.len() as int));
    }
}

/// A condition is refused only as not implemented.
proof fn lemma_clause_not_refused(wc: WhereClause, kind: ErrorKind)
    requires
        kind != ErrorKind::NotImplemented,
    ensures
        !refused_as(clause_outcome(wc), kind),
    decreases wc,
{
    match wc.value {
        Some(WhereValue::Item(it)) => {
            let up = is_upper(wc.commands);
            lemma_item_not_refused(it, up, kind);
            assert(clause_outcome(wc) == then_append(SqlOutcome::Text(clause_head(wc)), item_outcome(it, up)));
        },
        Some(WhereValue::Array(arr)) => {
            let up = is_upper(wc.commands);
            match connector(wc.operator@) {
                Some(c) => {
                    lemma_items_not_refused(arr@, up, c, kind);
                },
                None => {},
            }
        },
        None => {},
    }
}

/// An item of a value is refused only as not implemented.
proof fn lemma_item_not_refused(it: JsonItem, up: bool, kind: ErrorKind)
    requires
        kind != ErrorKind::NotImplemented,
    ensures
        !refused_as(item_outcome(it, up), kind),
    decreases it,
{
    match it {
        JsonItem::Clause(c) => {
            lemma_clause_not_refused(*c, kind);
        },
        _ => {},
    }
}

/// The items of a list value are refused only as not implemented.
proof fn lemma_items_not_refused(items: Seq<JsonItem>, up: bool, c: Seq<char>, kind: ErrorKind)
    requires
        kind != ErrorKind::NotImplemented,
    ensures
        !refused_as(items_outcome(items, up, c), kind),
    decreases items,
{
    if items.len() > 0 {
        lemma_item_not_refused(items.last(), up, kind);
        lemma_item_not_refused(items[0], up, kind);
    }
    if items.len() > 1 {
        lemma_items_not_refused(items.drop_last(), up, c, kind);
    }
}

/// The FROM clause is refused only as not implemented, the ORDER BY clause only as
/// a wrong parameter, and the client's conditions only as not implemented.
proof fn lemma_parts_refusals(map: Map<Seq<char>, Seq<PermissionsView>>, q: QueryStructure, kind: ErrorKind)
    ensures
        kind != ErrorKind::NotImplemented ==> !refused_as(from_outcome(map, q), kind),
        kind != ErrorKind::WrongParam ==> !refused_as(order_outcome(q), kind),
        kind != ErrorKind::NotImplemented ==> forall|pc: bool|
            !refused_as(#[trigger] clauses_outcome(q.where_clause@, pc), kind),
{
    if kind != ErrorKind::NotImplemented {
        let js = q.from.joins@.map_values(|j: FromJoiner| join_outcome(j));
        lemma_joined_not_refused(js, Seq::empty(), kind);
        assert forall|pc: bool| !refused_as(#[trigger] clauses_outcome(q.where_clause@, pc), kind) by {
            let wcs = q.where_clause@;
            let steps = Seq::new(wcs.len(), |i: int| clause_step(wcs, pc, i));
            assert forall|i: int| 0 <= i < steps.len() implies !refused_as(#[trigger] steps[i], kind) by {
                lemma_clause_not_refused(wcs[i], kind);
            }
            lemma_joined_not_refused(steps, Seq::empty(), kind);
        }
    }
    if kind != ErrorKind::WrongParam {
        let os = q.order_by@.map_values(|o: OrderByClause| order_item_outcome(o));
        lemma_joined_not_refused(os, ", "@, kind);
    }
}

/// The fields are refused only as a wrong parameter.
proof fn lemma_select_refusals(q: QueryStructure, remote: bool, kind: ErrorKind)
    requires
        kind != ErrorKind::WrongParam,
    ensures
        !refused_as(select_outcome(q, remote), kind),
{
}

/// The WHERE clause is refused only as unauthorized or not implemented.
proof fn lemma_where_refusals(uid: Uid, map: Map<Seq<char>, Seq<PermissionsView>>, q: QueryStructure, kind: ErrorKind)
    requires
        kind != ErrorKind::NotImplemented,
        kind != ErrorKind::Unauthorized,
    ensures
        !refused_as(where_outcome(uid, map, q), kind),
{
    lemma_parts_refusals(map, q, kind);
}

/// Tables with no rule add no permission condition.
proof fn lemma_no_rule_no_column(map: Map<Seq<char>, Seq<PermissionsView>>, ts: Seq<Seq<char>>, fields: Seq<Field>)
    requires
        forall|i: int| 0 <= i < ts.len() ==> !map.contains_key(lowercased(#[trigger] ts[i])),
    ensures
        uid_columns(map, ts, fields).len() == 0,
    decreases ts.len(),
{
    if ts.len() > 0 {
        lemma_no_rule_no_column(map, ts.drop_last(), fields);
        assert(!map.contains_key(lowercased(ts[ts.len() - 1])));
    }
}

/// The rendering without the WHERE clause's own refusal: where the WHERE clause
/// is not refused as unauthorized, neither is the query.
proof fn lemma_rendered_unauthorized(
    uid: Uid,
    map: Map<Seq<char>, Seq<PermissionsView>>,
    q: QueryStructure,
    remote: bool,
)
    ensures
        refused_as(rendered_outcome(uid, map, q, remote), ErrorKind::Unauthorized) <==> (
            select_outcome(q, remote) is Text && from_outcome(map, q) is Text && refused_as(
                where_outcome(uid, map, q),
                ErrorKind::Unauthorized,
            )
        ),
{
    lemma_parts_refusals(map, q, ErrorKind::Unauthorized);
}

/// A table with no permission rule is public to read: a query whose tables (the
/// main one and every joined one, by their lower-cased names) have no rule is
/// never refused as unauthorized, whoever asks and wherever the call comes from.
pub proof fn law_tables_without_rules_are_public(
    uid: Uid,
    map: Map<Seq<char>, Seq<PermissionsView>>,
    q: QueryStructure,
    remote: bool,
)
    requires
        forall|i: int|
            0 <= i < queried_tables(q).len() ==> !map.contains_key(
                lowercased(#[trigger] queried_tables(q)[i]),
            ),
    ensures
        !refused_as(query_outcome(uid, map, q, remote), ErrorKind::Unauthorized),
{
    let pm = if remote { map } else { Map::<Seq<char>, Seq<PermissionsView>>::empty() };
    lemma_no_rule_no_column(pm, queried_tables(q), q.fields@);
    lemma_rendered_unauthorized(uid, pm, q, remote);
    lemma_parts_refusals(pm, q, ErrorKind::Unauthorized);
    assert(!refused_as(where_outcome(uid, pm, q), ErrorKind::Unauthorized));
}

/// Permission control applies to calls from a client only: a local call is
/// rendered as with no rule at all, and is never refused as unauthorized or
/// forbidden.
pub proof fn law_local_calls_have_no_permission_control(
    uid: Uid,
    map: Map<Seq<char>, Seq<PermissionsView>>,
    q: QueryStructure,
)
    ensures
        query_outcome(uid, map, q, false) == query_outcome(uid, Map::empty(), q, false),
        !refused_as(query_outcome(uid, map, q, false), ErrorKind::Unauthorized),
        !refused_as(query_outcome(uid, map, q, false), ErrorKind::Forbidden),
{
    let e = Map::<Seq<char>, Seq<PermissionsView>>::empty();
    lemma_no_rule_no_column(e, queried_tables(q), q.fields@);
    lemma_rendered_unauthorized(uid, e, q, false);
    lemma_parts_refusals(e, q, ErrorKind::Unauthorized);
    assert(!refused_as(where_outcome(uid, e, q), ErrorKind::Unauthorized));
    lemma_parts_refusals(e, q, ErrorKind::Forbidden);
    lemma_select_refusals(q, false, ErrorKind::Forbidden);
    lemma_where_refusals(uid, e, q, ErrorKind::Forbidden);
}

/// A table with no rule is not writable: a client's UPDATE or DELETE that
/// touches such a table is forbidden.
pub proof fn law_writes_to_tables_without_rules_are_forbidden(
    uid: Uid,
    map: Map<Seq<char>, Seq<PermissionsView>>,
    q: QueryStructure,
    i: int,
)
    requires
        q.action != QueryStructureAction::SELECT,
        0 <= i < queried_tables(q).len(),
        !map.contains_key(lowercased(queried_tables(q)[i])),
    ensures
        refused_as(query_outcome(uid, map, q, true), ErrorKind::Forbidden),
{
    assert(write_blocked(map, q));
}

/// Only a table with no rule is not writable: where every queried table (by its
/// lower-cased name) has rules, a client's query of any action, a write among
/// them, is rendered as a local query over those rules is, and is never refused
/// as forbidden.
pub proof fn law_writes_to_tables_with_rules_are_rendered(
    uid: Uid,
    map: Map<Seq<char>, Seq<PermissionsView>>,
    q: QueryStructure,
)
    requires
        forall|k: int|
            0 <= k < queried_tables(q).len() ==> map.contains_key(lowercased(#[trigger] queried_tables(q)[k])),
    ensures
        query_outcome(uid, map, q, true) == rendered_outcome(uid, map, q, true),
        !refused_as(query_outcome(uid, map, q, true), ErrorKind::Forbidden),
{
    assert(!write_blocked(map, q));
    lemma_parts_refusals(map, q, ErrorKind::Forbidden);
    lemma_select_refusals(q, true, ErrorKind::Forbidden);
    lemma_where_refusals(uid, map, q, ErrorKind::Forbidden);
}

/// A client selects only plain column references: where a client's query
/// renders, every selected field is one; a client's query that selects another
/// (a sub-query, say) and writes no table without a rule is refused as a wrong
/// parameter. A local call selects its fields as given.
pub proof fn law_clients_select_only_plain_fields(
    uid: Uid,
    map: Map<Seq<char>, Seq<PermissionsView>>,
    q: QueryStructure,
)
    ensures
        query_outcome(uid, map, q, true) is Text ==> forall|k: int|
            0 <= k < q.fields.len() ==> plain_field(#[trigger] q.fields@[k]),
        (!write_blocked(map, q) && exists|k: int| 0 <= k < q.fields.len() && !plain_field(#[trigger] q.fields@[k]))
            ==> refused_as(query_outcome(uid, map, q, true), ErrorKind::WrongParam),
        select_outcome(q, false) == SqlOutcome::Text(select_fields(q)),
{
}

/// The fields as they are selected: `*` where the query names none, else each
/// field (`table.column` or `column`, inside `UPPER(..)` where its commands ask
/// for upper case) in the order given, joined by `, `; they are never refused
/// where no client selects a field that is not a plain column reference.
pub proof fn law_select_fields(q: QueryStructure, remote: bool)
    requires
        !remote || forall|k: int| 0 <= k < q.fields.len() ==> plain_field(#[trigger] q.fields@[k]),
    ensures
        select_outcome(q, remote) == SqlOutcome::Text(
            if q.fields.len() == 0 {
                "*"@
            } else {
                join(q.fields@.map_values(|f: Field| select_item(f)), ", "@)
            },
        ),
{
}

/// The FROM clause of joins that each join on at least one equality: it is
/// refused, and then as not implemented, exactly where a join is not a
/// `LEFT_JOIN`; it never aborts.
pub proof fn law_from_clause_refusals(map: Map<Seq<char>, Seq<PermissionsView>>, q: QueryStructure)
    requires
        forall|k: int| 0 <= k < q.from.joins.len() ==> (#[trigger] q.from.joins@[k]).on.len() > 0,
    ensures
        !(from_outcome(map, q) is Text) <==> exists|k: int|
            0 <= k < q.from.joins.len() && (#[trigger] q.from.joins@[k]).join_type@ != "LEFT_JOIN"@,
        !(from_outcome(map, q) is Text) ==> refused_as(from_outcome(map, q), ErrorKind::NotImplemented),
{
    let js = q.from.joins@.map_values(|j: FromJoiner| join_outcome(j));
    lemma_joined_text(js, Seq::empty());
    lemma_joined_never(js, Seq::empty(), SqlOutcome::Abort);
    assert forall|k: int| 0 <= k < js.len() implies #[trigger] js[k] != SqlOutcome::Abort by {
        assert(q.from.joins@[k].on.len() > 0);
    }
    lemma_joined_never(js, Seq::empty(), SqlOutcome::Abort);
    lemma_parts_refusals(map, q, ErrorKind::Unauthorized);
    lemma_parts_refusals(map, q, ErrorKind::WrongParam);
    lemma_parts_refusals(map, q, ErrorKind::Forbidden);
    if exists|k: int| 0 <= k < q.from.joins.len() && (#[trigger] q.from.joins@[k]).join_type@ != "LEFT_JOIN"@ {
        let k = choose|k: int| 0 <= k < q.from.joins.len() && (#[trigger] q.from.joins@[k]).join_type@ != "LEFT_JOIN"@;
        assert(!(js[k] is Text));
    }
    if !(joined(js, Seq::empty()) is Text) {
        let k = choose|k: int| 0 <= k < js.len() && !(#[trigger] js[k] is Text);
        assert(q.from.joins@[k].join_type@ != "LEFT_JOIN"@);
    }
    if !(from_outcome(map, q) is Text) {
        match from_outcome(map, q) {
            SqlOutcome::Refused(kind) => {
                lemma_parts_refusals(map, q, kind);
            },
            _ => {},
        }
    }
}

/// The FROM clause of left joins that each join on at least one equality: the
/// main table, the joins that the queried tables' rules add, then for each join
/// in order ` LEFT JOIN`, its table, `ON` and its equalities joined by ` AND `.
pub proof fn law_from_clause_text(map: Map<Seq<char>, Seq<PermissionsView>>, q: QueryStructure)
    requires
        forall|k: int|
            0 <= k < q.from.joins.len() ==> (#[trigger] q.from.joins@[k]).join_type@ == "LEFT_JOIN"@
                && q.from.joins@[k].on.len() > 0,
    ensures
        from_outcome(map, q) == SqlOutcome::Text(
            q.from.main@ + tables_joiners(
                map,
                queried_tables(q),
                q.action == QueryStructureAction::SELECT,
                q.fields@,
            ) + join(
                q.from.joins@.map_values(
                    |j: FromJoiner|
                        " LEFT JOIN "@ + j.table@ + " ON "@ + join(
                            j.on@.map_values(|o: FromJoinerOn| on_text(o)),
                            " AND "@,
                        ),
                ),
                Seq::empty(),
            ),
        ),
{
    let js = q.from.joins@.map_values(|j: FromJoiner| join_outcome(j));
    assert forall|i: int| 0 <= i < js.len() implies #[trigger] js[i] is Text by {
        assert(q.from.joins@[i].join_type@ == "LEFT_JOIN"@);
    }
    lemma_joined_texts(js, Seq::empty());
    assert(js.map_values(|o: SqlOutcome| o->Text_0) =~= q.from.joins@.map_values(
        |j: FromJoiner|
            " LEFT JOIN "@ + j.table@ + " ON "@ + join(
                j.on@.map_values(|o: FromJoinerOn| on_text(o)),
                " AND "@,
            ),
    ));
}

/// The ORDER BY clause is refused, and then as a wrong parameter, exactly where
/// an ordering's operator is other than `desc`, `asc` and nothing; it never
/// aborts.
pub proof fn law_order_clause_refusals(q: QueryStructure)
    ensures
        !(order_outcome(q) is Text) <==> exists|k: int|
            0 <= k < q.order_by.len() && !(#[trigger] q.order_by@[k].operator@ == "desc"@
                || q.order_by@[k].operator@ == "asc"@ || q.order_by@[k].operator@ == ""@),
        !(order_outcome(q) is Text) ==> refused_as(order_outcome(q), ErrorKind::WrongParam),
{
    let os = q.order_by@.map_values(|o: OrderByClause| order_item_outcome(o));
    lemma_joined_text(os, ", "@);
    lemma_joined_never(os, ", "@, SqlOutcome::Abort);
    if exists|k: int|
        0 <= k < q.order_by.len() && !(#[trigger] q.order_by@[k].operator@ == "desc"@
            || q.order_by@[k].operator@ == "asc"@ || q.order_by@[k].operator@ == ""@) {
        let k = choose|k: int|
            0 <= k < q.order_by.len() && !(#[trigger] q.order_by@[k].operator@ == "desc"@
                || q.order_by@[k].operator@ == "asc"@ || q.order_by@[k].operator@ == ""@);
        assert(!(os[k] is Text));
    }
    if q.order_by.len() > 0 && !(joined(os, ", "@) is Text) {
        let k = choose|k: int| 0 <= k < os.len() && !(#[trigger] os[k] is Text);
        assert(os[k] == order_item_outcome(q.order_by@[k]));
    }
    if !(order_outcome(q) is Text) {
        match order_outcome(q) {
            SqlOutcome::Refused(kind) => {
                lemma_parts_refusals(Map::empty(), q, kind);
            },
            _ => {},
        }
    }
}

/// The ORDER BY clause of orderings that are each `desc`, `asc` or nothing: none
/// where there are none, else `ORDER BY ` and each ordering's field (`table.column`
/// or `column`) with ` DESC` for `desc` and ` ASC` otherwise, in order, joined by
/// `, `.
pub proof fn law_order_clause_text(q: QueryStructure)
    requires
        forall|k: int|
            0 <= k < q.order_by.len() ==> (#[trigger] q.order_by@[k].operator@ == "desc"@
                || q.order_by@[k].operator@ == "asc"@ || q.order_by@[k].operator@ == ""@),
    ensures
        order_outcome(q) == SqlOutcome::Text(
            if q.order_by.len() == 0 {
                Seq::empty()
            } else {
                "ORDER BY "@ + join(
                    q.order_by@.map_values(
                        |o: OrderByClause|
                            (match o.field.table {
                                Some(t) => t@ + "."@ + o.field.column@,
                                None => o.field.column@,
                            }) + (if o.operator@ == "desc"@ { " DESC"@ } else { " ASC"@ }),
                    ),
                    ", "@,
                )
            },
        ),
{
    reveal_strlit(" DESC");
    reveal_strlit(" ASC");
    reveal_strlit(" ");
    reveal_strlit("DESC");
    reveal_strlit("ASC");
    let os = q.order_by@.map_values(|o: OrderByClause| order_item_outcome(o));
    assert forall|i: int| 0 <= i < os.len() implies #[trigger] os[i] is Text by {
        assert(q.order_by@[i].operator@ == "desc"@ || q.order_by@[i].operator@ == "asc"@
            || q.order_by@[i].operator@ == ""@);
    }
    lemma_joined_texts(os, ", "@);
    let expected = q.order_by@.map_values(
        |o: OrderByClause|
            (match o.field.table {
                Some(t) => t@ + "."@ + o.field.column@,
                None => o.field.column@,
            }) + (if o.operator@ == "desc"@ { " DESC"@ } else { " ASC"@ }),
    );
    let texts = os.map_values(|o: SqlOutcome| o->Text_0);
    assert forall|i: int| 0 <= i < os.len() implies #[trigger] texts[i] == expected[i] by {
        let o = q.order_by@[i];
        assert(" "@ + "DESC"@ =~= " DESC"@);
        assert(" "@ + "ASC"@ =~= " ASC"@);
        if o.operator@ == "desc"@ {
            assert(os[i]->Text_0 =~= expected[i]);
        } else {
            assert(os[i]->Text_0 =~= expected[i]);
        }
    }
    assert(texts =~= expected);
}

/// The LIMIT clause: `LIMIT` and the decimal text of the limit, where there is
/// one other than -1; else nothing.
pub proof fn law_limit_clause(q: QueryStructure)
    ensures
        limit_text(q) == match q.limit {
            Some(n) => if n == -1 {
                Seq::empty()
            } else {
                "LIMIT "@ + decimal_int(n as int)
            },
            None => Seq::<char>::empty(),
        },
{
}

/// The client's conditions stand in one group: where permission conditions
/// stand, the caller is logged in and the first client condition is not an `or`,
/// a rendered WHERE clause is `WHERE`, the permission conditions, then ` AND (`,
/// the client's conditions and `)`.
pub proof fn law_client_conditions_form_one_group(
    uid: Uid,
    map: Map<Seq<char>, Seq<PermissionsView>>,
    q: QueryStructure,
)
    requires
        uid_columns(map, queried_tables(q), q.fields@).len() > 0,
        uid.uid_sql_val_str is Some,
        q.where_clause.len() > 0,
        q.where_clause@[0].operator@ != "or"@,
        where_outcome(uid, map, q) is Text,
    ensures
        exists|mid: Seq<char>|
            where_outcome(uid, map, q) == SqlOutcome::Text(
                "WHERE "@ + permission_sql(
                    uid_columns(map, queried_tables(q), q.fields@),
                    uid_text(uid.uid_sql_val_str),
                ) + " AND ("@ + mid + ")"@,
            ),
{
    let wcs = q.where_clause@;
    let steps = Seq::new(wcs.len(), |i: int| clause_step(wcs, true, i));
    let perm = permission_sql(uid_columns(map, queried_tables(q), q.fields@), uid_text(uid.uid_sql_val_str));
    assert(steps[0] == then_append(SqlOutcome::Text(" AND ("@), clause_outcome(wcs[0])));
    lemma_joined_text(steps, Seq::empty());
    assert(clauses_outcome(wcs, true) == joined(steps, Seq::empty()));
    assert(steps[0] is Text);
    lemma_joined_begins_with_first(steps, Seq::empty());
    let t = joined(steps, Seq::empty())->Text_0;
    let x = steps[0]->Text_0;
    let c = clause_outcome(wcs[0])->Text_0;
    assert(x == " AND ("@ + c);
    let mid = t.subrange(" AND ("@.len() as int, t.len() as int);
    assert(t.subrange(0, " AND ("@.len() as int) =~= x.subrange(0, " AND ("@.len() as int));
    assert(x.subrange(0, " AND ("@.len() as int) =~= " AND ("@);
    assert(t =~= " AND ("@ + mid);
    assert(clauses_outcome(q.where_clause@, true) == SqlOutcome::Text(t));
    let inner = then_append(clauses_outcome(q.where_clause@, true), SqlOutcome::Text(")"@));
    assert(inner == SqlOutcome::Text(t + ")"@));
    assert(where_outcome(uid, map, q) == then_append(SqlOutcome::Text("WHERE "@ + perm), inner));
    assert(where_outcome(uid, map, q) == SqlOutcome::Text(("WHERE "@ + perm) + (t + ")"@)));
    assert(("WHERE "@ + perm) + (t + ")"@) =~= "WHERE "@ + perm + " AND ("@ + mid + ")"@);
}

/// An applying read rule gives at least one permission condition, and every
/// permission condition comes from one.
proof fn lemma_columns_iff_rule(map: Map<Seq<char>, Seq<PermissionsView>>, q: QueryStructure, n: int)
    requires
        0 <= n <= queried_tables(q).len(),
    ensures
        uid_columns(map, queried_tables(q).take(n), q.fields@).len() > 0 <==> exists|i: int, j: int|
            0 <= i < n && #[trigger] applying_read_rule(map, q, i, j),
    decreases n,
{
    let ts = queried_tables(q);
    if n > 0 {
        lemma_columns_iff_rule(map, q, n - 1);
        assert(ts.take(n).drop_last() =~= ts.take(n - 1));
        let key = lowercased(ts[n - 1]);
        if map.contains_key(key) {
            let ps = map[key];
            lemma_rules_columns_iff(ps, key, q.fields@, ps.len() as int);
            assert(ps.take(ps.len() as int) =~= ps);
            if rules_uid_columns(ps, key, q.fields@).len() > 0 {
                let j = choose|j: int| 0 <= j < ps.len() && ps[j].uid_read is Some && rule_applies(ps[j], key, q.fields@);
                assert(applying_read_rule(map, q, n - 1, j));
            }
            if exists|i: int, j: int| 0 <= i < n && #[trigger] applying_read_rule(map, q, i, j) {
                let (i, j) = choose|i: int, j: int| 0 <= i < n && #[trigger] applying_read_rule(map, q, i, j);
                if i == n - 1 {
                    assert(0 <= j < ps.len() && ps[j].uid_read is Some && rule_applies(ps[j], key, q.fields@));
                } else {
                    assert(0 <= i < n - 1 && applying_read_rule(map, q, i, j));
                }
            }
        } else {
            if exists|i: int, j: int| 0 <= i < n && #[trigger] applying_read_rule(map, q, i, j) {
                let (i, j) = choose|i: int, j: int| 0 <= i < n && #[trigger] applying_read_rule(map, q, i, j);
                assert(i != n - 1);
                assert(0 <= i < n - 1 && applying_read_rule(map, q, i, j));
            }
        }
    } else {
        assert(ts.take(0) =~= Seq::<Seq<char>>::empty());
    }
}

/// The rules of a table give a uid column exactly where one of them reads by one
/// and applies.
proof fn lemma_rules_columns_iff(ps: Seq<PermissionsView>, key: Seq<char>, fields: Seq<Field>, n: int)
    requires
        0 <= n <= ps.len(),
    ensures
        rules_uid_columns(ps.take(n), key, fields).len() > 0 <==> exists|j: int|
            0 <= j < n && ps[j].uid_read is Some && #[trigger] rule_applies(ps[j], key, fields),
    decreases n,
{
    if n > 0 {
        lemma_rules_columns_iff(ps, key, fields, n - 1);
        assert(ps.take(n).drop_last() =~= ps.take(n - 1));
        assert(ps.take(n).last() == ps[n - 1]);
        if exists|j: int| 0 <= j < n && ps[j].uid_read is Some && #[trigger] rule_applies(ps[j], key, fields) {
            let j = choose|j: int| 0 <= j < n && ps[j].uid_read is Some && #[trigger] rule_applies(ps[j], key, fields);
            if j < n - 1 {
                assert(0 <= j < n - 1 && ps[j].uid_read is Some && rule_applies(ps[j], key, fields));
            }
        }
    } else {
        assert(ps.take(0) =~= Seq::<PermissionsView>::empty());
    }
}

/// The WHERE clause is refused as unauthorized exactly where the caller is not
/// logged in and a queried table has a read rule that applies to the query.
pub proof fn law_where_unauthorized_exactly_for_anonymous_readers(
    uid: Uid,
    map: Map<Seq<char>, Seq<PermissionsView>>,
    q: QueryStructure,
)
    ensures
        refused_as(where_outcome(uid, map, q), ErrorKind::Unauthorized) <==> (
            uid.uid_sql_val_str is None && exists|i: int, j: int| #[trigger] applying_read_rule(map, q, i, j)
        ),
{
    let ts = queried_tables(q);
    lemma_columns_iff_rule(map, q, ts.len() as int);
    assert(ts.take(ts.len() as int) =~= ts);
    lemma_parts_refusals(map, q, ErrorKind::Unauthorized);
    if exists|i: int, j: int| #[trigger] applying_read_rule(map, q, i, j) {
        let (i, j) = choose|i: int, j: int| #[trigger] applying_read_rule(map, q, i, j);
        assert(0 <= i < ts.len() && applying_read_rule(map, q, i, j));
    }
}

/// A client's query that writes no table without a rule and whose fields and
/// FROM clause render, is refused as unauthorized exactly where the
/// caller is not logged in and a queried table has a read rule that applies.
pub proof fn law_query_unauthorized_exactly_for_anonymous_readers(
    uid: Uid,
    map: Map<Seq<char>, Seq<PermissionsView>>,
    q: QueryStructure,
)
    requires
        !write_blocked(map, q),
        select_outcome(q, true) is Text,
        from_outcome(map, q) is Text,
    ensures
        refused_as(query_outcome(uid, map, q, true), ErrorKind::Unauthorized) <==> (
            uid.uid_sql_val_str is None && exists|i: int, j: int| #[trigger] applying_read_rule(map, q, i, j)
        ),
{
    lemma_rendered_unauthorized(uid, map, q, true);
    law_where_unauthorized_exactly_for_anonymous_readers(uid, map, q);
}

/// Reading with a read rule needs a login: where a queried table has a read rule
/// that applies and the client is not logged in, no SQL comes out.
pub proof fn law_read_rule_requires_login(
    uid: Uid,
    map: Map<Seq<char>, Seq<PermissionsView>>,
    q: QueryStructure,
    i: int,
    j: int,
)
    requires
        uid.uid_sql_val_str is None,
        applying_read_rule(map, q, i, j),
    ensures
        !(query_outcome(uid, map, q, true) is Text),
{
    law_where_unauthorized_exactly_for_anonymous_readers(uid, map, q);
}

/// With no client condition, the WHERE clause is exactly the permission
/// conditions: none where no rule applies, else `WHERE ` and each
/// `column = uid` joined by ` AND `.
pub proof fn law_where_without_client_conditions(
    uid: Uid,
    map: Map<Seq<char>, Seq<PermissionsView>>,
    q: QueryStructure,
)
    requires
        q.where_clause.len() == 0,
        uid_columns(map, queried_tables(q), q.fields@).len() == 0 || uid.uid_sql_val_str is Some,
    ensures
        where_outcome(uid, map, q) == SqlOutcome::Text(
            if uid_columns(map, queried_tables(q), q.fields@).len() == 0 {
                Seq::empty()
            } else {
                "WHERE "@ + permission_sql(
                    uid_columns(map, queried_tables(q), q.fields@),
                    uid_text(uid.uid_sql_val_str),
                )
            },
        ),
{
}

/// A rule for one column that the query does not read adds neither a join nor a
/// condition: the other columns of the table stay public to read.
pub proof fn law_column_rules_apply_to_their_column(
    p: PermissionsView,
    key: Seq<char>,
    fields: Seq<Field>,
    select: bool,
)
    requires
        p.column matches Some(c) && !reads_column(fields, key, c),
    ensures
        rule_uid_column(p, key, fields) == Seq::<Seq<char>>::empty(),
        rule_joiners(p, select, key, fields) == Seq::<char>::empty(),
{
}

/// Table names are matched without regard to case, as the rules are grouped.
pub proof fn law_table_names_match_in_any_case(
    map: Map<Seq<char>, Seq<PermissionsView>>,
    a: Seq<char>,
    b: Seq<char>,
    fields: Seq<Field>,
)
    requires
        lowercased(a) == lowercased(b),
    ensures
        table_uid_columns(map, a, fields) == table_uid_columns(map, b, fields),
{
}

/// Whether a text can stand between single quotes as one SQL string literal: each
/// `'` in it is doubled.
pub open spec fn literal_body(t: Seq<char>) -> bool
    decreases t.len(),
{
    if t.len() == 0 {
        true
    } else if t[0] == '\'' {
        t.len() >= 2 && t[1] == '\'' && literal_body(t.skip(2))
    } else {
        literal_body(t.skip(1))
    }
}

/// A string value stays one literal: whatever quotes a client puts in it, its
/// escaped text ends no literal early.
pub proof fn law_string_values_stay_literals(s: Seq<char>)
    ensures
        literal_body(quote_escaped(s)),
    decreases s.len(),
{
    if s.len() > 0 {
        law_string_values_stay_literals(s.skip(1));
        let t = quote_escaped(s);
        if s[0] == '\'' {
            assert(t.skip(2) =~= quote_escaped(s.skip(1)));
        } else {
            assert(t.skip(1) =~= quote_escaped(s.skip(1)));
        }
    }
}

/// The rows a caller reads are those the rules give them: where a client's query
/// over tables with applying read rules renders, its WHERE clause begins with the
/// condition `column = uid` of every such rule, joined by ` AND `, and the client's
/// own conditions can only follow them.
pub proof fn law_read_rules_lead_the_where_clause(
    uid: Uid,
    map: Map<Seq<char>, Seq<PermissionsView>>,
    q: QueryStructure,
)
    requires
        uid_columns(map, queried_tables(q), q.fields@).len() > 0,
        query_outcome(uid, map, q, true) is Text,
    ensures
        exists|before: Seq<char>, after: Seq<char>|
            query_outcome(uid, map, q, true) == SqlOutcome::Text(
                before + "\n"@ + "WHERE "@ + permission_sql(
                    uid_columns(map, queried_tables(q), q.fields@),
                    uid_text(uid.uid_sql_val_str),
                ) + after,
            ),
{
    assert(query_outcome(uid, map, q, true) == rendered_outcome(uid, map, q, true));
    let perm = permission_sql(uid_columns(map, queried_tables(q), q.fields@), uid_text(uid.uid_sql_val_str));
    lemma_rendered_parts(uid, map, q, true);
    let sf = select_outcome(q, true)->Text_0;
    let f = from_outcome(map, q)->Text_0;
    let w = where_outcome(uid, map, q)->Text_0;
    let o = order_outcome(q)->Text_0;
    lemma_where_prefix(uid, map, q);
    let suffix = w.subrange(("WHERE "@ + perm).len() as int, w.len() as int);
    let before = action_text(q.action) + " "@ + sf + "\nFROM "@ + f;
    let after = suffix + ("\n"@ + (o + ("\n"@ + limit_text(q))));
    assert(action_text(q.action) + " "@ + (sf + ("\nFROM "@ + (f + ("\n"@ + (w + ("\n"@ + (o + ("\n"@
        + limit_text(q))))))))) =~= before + "\n"@ + "WHERE "@ + perm + after);
}

/// A rendered query is, on lines of its own: the action's name (`SELECT`,
/// `UPDATE` or `DELETE`) and the fields; `FROM` and the FROM clause; the WHERE
/// clause; the ORDER BY clause; the LIMIT clause, each part text.
pub proof fn law_query_layout(
    uid: Uid,
    map: Map<Seq<char>, Seq<PermissionsView>>,
    q: QueryStructure,
    remote: bool,
)
    requires
        rendered_outcome(uid, map, q, remote) is Text,
    ensures
        rendered_outcome(uid, map, q, remote) == SqlOutcome::Text(
            (match q.action {
                QueryStructureAction::SELECT => "SELECT"@,
                QueryStructureAction::UPDATE => "UPDATE"@,
                QueryStructureAction::DELETE => "DELETE"@,
            }) + " "@ + select_outcome(q, remote)->Text_0 + "\nFROM "@ + from_outcome(map, q)->Text_0 + "\n"@
                + where_outcome(uid, map, q)->Text_0 + "\n"@ + order_outcome(q)->Text_0 + "\n"@ + limit_text(q),
        ),
{
    lemma_rendered_parts(uid, map, q, remote);
    let a = action_text(q.action) + " "@;
    let sf = select_outcome(q, remote)->Text_0;
    let f = from_outcome(map, q)->Text_0;
    let w = where_outcome(uid, map, q)->Text_0;
    let o = order_outcome(q)->Text_0;
    lemma_nine_parts(a, sf, "\nFROM "@, f, "\n"@, w, "\n"@, o, "\n"@ + limit_text(q));
    assert(a + sf + "\nFROM "@ + f + "\n"@ + w + "\n"@ + o + ("\n"@ + limit_text(q))
        =~= a + sf + "\nFROM "@ + f + "\n"@ + w + "\n"@ + o + "\n"@ + limit_text(q));
}

/// Nine texts written one after another, however they are grouped.
proof fn lemma_nine_parts(
    a: Seq<char>,
    b: Seq<char>,
    c: Seq<char>,
    d: Seq<char>,
    e: Seq<char>,
    f: Seq<char>,
    g: Seq<char>,
    h: Seq<char>,
    i: Seq<char>,
)
    ensures
        a + (b + (c + (d + (e + (f + (g + (h + i))))))) == a + b + c + d + e + f + g + h + i,
{
    assert(a + (b + (c + (d + (e + (f + (g + (h + i))))))) =~= a + b + c + d + e + f + g + h + i);
}

/// A rendered query is its parts, each of them text, in their order.
proof fn lemma_rendered_parts(
    uid: Uid,
    map: Map<Seq<char>, Seq<PermissionsView>>,
    q: QueryStructure,
    remote: bool,
)
    requires
        rendered_outcome(uid, map, q, remote) is Text,
    ensures
        select_outcome(q, remote) is Text,
        from_outcome(map, q) is Text,
        where_outcome(uid, map, q) is Text,
        order_outcome(q) is Text,
        rendered_outcome(uid, map, q, remote) == SqlOutcome::Text(
            action_text(q.action) + " "@ + (select_outcome(q, remote)->Text_0 + ("\nFROM "@ + (
            from_outcome(map, q)->Text_0 + ("\n"@ + (where_outcome(uid, map, q)->Text_0 + ("\n"@ + (
            order_outcome(q)->Text_0 + ("\n"@ + limit_text(q)))))))))),
{
}

/// Where permission conditions stand, a WHERE clause that renders begins with
/// `WHERE` and them.
proof fn lemma_where_prefix(uid: Uid, map: Map<Seq<char>, Seq<PermissionsView>>, q: QueryStructure)
    requires
        uid_columns(map, queried_tables(q), q.fields@).len() > 0,
        where_outcome(uid, map, q) is Text,
    ensures
        ({
            let perm = permission_sql(uid_columns(map, queried_tables(q), q.fields@), uid_text(uid.uid_sql_val_str));
            let w = where_outcome(uid, map, q)->Text_0;
            &&& ("WHERE "@ + perm).len() <= w.len()
            &&& w =~= ("WHERE "@ + perm) + w.subrange(("WHERE "@ + perm).len() as int, w.len() as int)
        }),
{
    let perm = permission_sql(uid_columns(map, queried_tables(q), q.fields@), uid_text(uid.uid_sql_val_str));
    if q.where_clause.len() > 0 {
        let rest = then_append(clauses_outcome(q.where_clause@, true), SqlOutcome::Text(")"@));
        assert(rest is Text);
        assert(where_outcome(uid, map, q)->Text_0 == ("WHERE "@ + perm) + rest->Text_0);
    }
}

} // verus!
