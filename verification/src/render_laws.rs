//! How each part of a query is written out: what a list value, a selected field,
//! the limit and the joins of the rules come to, over every input.

use vstd::prelude::*;
use crate::error_code::ErrorKind;
use crate::permissions::PermissionsView;
use crate::query_structure::{Field, FromJoinerOn, QueryStructure, WhereClause, WhereValue, JsonItem};
use crate::text::{join, decimal_nat, digit_char};
use crate::sql_spec::{
    SqlOutcome, clause_outcome, item_outcome, items_outcome, clause_head, is_upper, select_outcome,
    plain_field, limit_text, rules_joiners, rule_applies, select_item, connector, quote_escaped,
    on_text, tables_joiners, uid_columns, rules_uid_columns, permission_sql,
};

verus! {

/// The value of a numeral: its characters read as decimal digits, most
/// significant first.
pub open spec fn numeral_value(s: Seq<char>) -> int
    decreases s.len(),
{
    if s.len() == 0 {
        0
    } else {
        numeral_value(s.drop_last()) * 10 + ((s.last() as int) - ('0' as int))
    }
}

/// Whether a character is a decimal digit.
pub open spec fn is_digit(c: char) -> bool {
    '0' <= c && c <= '9'
}

/// Whether a text is a numeral: digits only, at least one, and no leading `0`
/// unless it is `0` itself.
pub open spec fn is_numeral(s: Seq<char>) -> bool {
    &&& s.len() > 0
    &&& forall|i: int| 0 <= i < s.len() ==> is_digit(#[trigger] s[i])
    &&& (s[0] == '0' ==> s.len() == 1)
}

/// The character of a digit is that digit counted up from `0`.
proof fn lemma_digit_char(d: nat)
    requires
        d < 10,
    ensures
        digit_char(d) as int == ('0' as int) + d,
        is_digit(digit_char(d)),
{
}

/// The decimal text of a natural number reads back as it: it is a numeral whose
/// value is the number.
pub proof fn law_decimal_reads_back(n: nat)
    ensures
        is_numeral(decimal_nat(n)),
        numeral_value(decimal_nat(n)) == n,
    decreases n,
{
    if n < 10 {
        lemma_digit_char(n);
        let s = decimal_nat(n);
        assert(s.drop_last() =~= Seq::<char>::empty());
        assert(numeral_value(Seq::<char>::empty()) == 0);
        assert(numeral_value(s) == numeral_value(s.drop_last()) * 10 + ((s.last() as int) - ('0' as int)));
        assert(s[0] == '0' ==> n == 0);
    } else {
        law_decimal_reads_back(n / 10);
        let p = decimal_nat(n / 10);
        let d = (n % 10) as nat;
        lemma_digit_char(d);
        let s = decimal_nat(n);
        assert(s == p.push(digit_char(d)));
        assert(s.drop_last() =~= p);
        assert(s[0] == p[0]);
        assert(p.len() > 1 || p[0] != '0') by {
            if p.len() == 1 && p[0] == '0' {
                assert(numeral_value(p) == numeral_value(p.drop_last()) * 10 + 0);
                assert(p.drop_last() =~= Seq::<char>::empty());
            }
        }
        assert forall|i: int| 0 <= i < s.len() implies is_digit(#[trigger] s[i]) by {
            if i < p.len() {
                assert(s[i] == p[i]);
            }
        }
        assert(numeral_value(s) == numeral_value(p) * 10 + d);
        assert((n / 10) * 10 + n % 10 == n);
    }
}

/// The LIMIT clause writes a limit other than -1 so that it reads back: `LIMIT `,
/// a `-` where the limit is negative, then a numeral whose value is the limit's
/// magnitude. With no limit, or -1, there is no LIMIT clause.
pub proof fn law_limit_reads_back(q: QueryStructure)
    ensures
        (q.limit is None || q.limit == Some(-1i32)) ==> limit_text(q) == Seq::<char>::empty(),
        q.limit is Some && q.limit.unwrap() != -1 ==> {
            let n = q.limit.unwrap();
            let t = limit_text(q);
            let sign: int = if n < 0 { 1 } else { 0 };
            let digits = t.skip(6 + sign);
            &&& t.len() > 6 + sign
            &&& t.take(6) == "LIMIT "@
            &&& (n < 0 ==> t[6] == '-')
            &&& is_numeral(digits)
            &&& numeral_value(digits) == if n < 0 { -(n as int) } else { n as int }
        },
{
    match q.limit {
        Some(n) => {
            if n != -1 {
                let m: nat = if n < 0 { (-(n as int)) as nat } else { n as nat };
                law_decimal_reads_back(m);
                let t = limit_text(q);
                let head = "LIMIT "@;
                assert(head.len() == 6) by {
                    reveal_strlit("LIMIT ");
                }
                if n < 0 {
                    assert(t == head + (seq!['-'] + decimal_nat(m)));
                    assert(t.skip(7) =~= decimal_nat(m));
                    assert(t.take(6) =~= head);
                    assert(t[6] == '-');
                } else {
                    assert(t == head + decimal_nat(m));
                    assert(t.skip(6) =~= decimal_nat(m));
                    assert(t.take(6) =~= head);
                }
            }
        },
        None => {},
    }
}

/// A selected field is written as its column, after its table and `.` where it
/// names one, and the whole inside `UPPER(..)` exactly where its commands are
/// `UPPER_CASE`, whether or not it names a table. The fields are written in the
/// order given, joined by `, `, or as `*` where there are none; a local call, or
/// a client's call of plain fields, is never refused here.
pub proof fn law_selected_field_text(q: QueryStructure, remote: bool)
    requires
        !remote || forall|k: int| 0 <= k < q.fields.len() ==> plain_field(#[trigger] q.fields@[k]),
    ensures
        select_outcome(q, remote) == SqlOutcome::Text(
            if q.fields.len() == 0 {
                "*"@
            } else {
                join(
                    q.fields@.map_values(
                        |f: Field|
                            {
                                let r = match f.table {
                                    Some(t) => t@ + "."@ + f.column@,
                                    None => f.column@,
                                };
                                if f.commands matches Some(c) && c@ == "UPPER_CASE"@ {
                                    "UPPER("@ + r + ")"@
                                } else {
                                    r
                                }
                            },
                    ),
                    ", "@,
                )
            },
        ),
{
    let expected = q.fields@.map_values(
        |f: Field|
            {
                let r = match f.table {
                    Some(t) => t@ + "."@ + f.column@,
                    None => f.column@,
                };
                if f.commands matches Some(c) && c@ == "UPPER_CASE"@ {
                    "UPPER("@ + r + ")"@
                } else {
                    r
                }
            },
    );
    assert(q.fields@.map_values(|f: Field| select_item(f)) =~= expected);
}

/// Items of a list that are all text are joined by the connector.
proof fn lemma_items_text(items: Seq<JsonItem>, up: bool, c: Seq<char>)
    requires
        forall|k: int| 0 <= k < items.len() ==> #[trigger] item_outcome(items[k], up) is Text,
    ensures
        items_outcome(items, up, c) == SqlOutcome::Text(
            join(items.map_values(|it: JsonItem| item_outcome(it, up)->Text_0), c),
        ),
    decreases items.len(),
{
    if items.len() > 1 {
        let init = items.drop_last();
        assert forall|k: int| 0 <= k < init.len() implies #[trigger] item_outcome(init[k], up) is Text by {
            assert(init[k] == items[k]);
        }
        lemma_items_text(init, up, c);
        assert(items.map_values(|it: JsonItem| item_outcome(it, up)->Text_0).drop_last()
            =~= init.map_values(|it: JsonItem| item_outcome(it, up)->Text_0));
        assert(item_outcome(items[items.len() - 1], up) is Text);
    }
}

/// A list value stands in brackets after the condition's field and operator, its
/// items written one after another: separated by `, ` for `in` and `not in`, by
/// ` AND ` for `between`, `not between` and `or`. With any other operator a list
/// value is not implemented.
pub proof fn law_list_values(wc: WhereClause, items: Seq<JsonItem>)
    requires
        wc.value matches Some(WhereValue::Array(arr)) && arr@ == items,
        items.len() > 0,
        forall|k: int| 0 <= k < items.len() ==> #[trigger] item_outcome(items[k], is_upper(wc.commands)) is Text,
    ensures
        ({
            let op = wc.operator@;
            let texts = items.map_values(|it: JsonItem| item_outcome(it, is_upper(wc.commands))->Text_0);
            &&& (op == "in"@ || op == "not in"@) ==> clause_outcome(wc) == SqlOutcome::Text(
                clause_head(wc) + "("@ + join(texts, ", "@) + ")"@,
            )
            &&& (op == "between"@ || op == "not between"@ || op == "or"@) ==> clause_outcome(wc)
                == SqlOutcome::Text(clause_head(wc) + "("@ + join(texts, " AND "@) + ")"@)
            &&& !(op == "in"@ || op == "not in"@ || op == "between"@ || op == "not between"@ || op
                == "or"@) ==> clause_outcome(wc) == SqlOutcome::Refused(ErrorKind::NotImplemented)
        }),
{
    reveal_strlit("in");
    reveal_strlit("not in");
    reveal_strlit("between");
    reveal_strlit("not between");
    reveal_strlit("or");
    let up = is_upper(wc.commands);
    lemma_items_text(items, up, ", "@);
    lemma_items_text(items, up, " AND "@);
    let texts = items.map_values(|it: JsonItem| item_outcome(it, is_upper(wc.commands))->Text_0);
    assert(items.map_values(|it: JsonItem| item_outcome(it, up)->Text_0) =~= texts);
    let t1 = join(items.map_values(|it: JsonItem| item_outcome(it, up)->Text_0), ", "@);
    let t2 = join(items.map_values(|it: JsonItem| item_outcome(it, up)->Text_0), " AND "@);
    assert(clause_head(wc) + "("@ + (t1 + ")"@) =~= clause_head(wc) + "("@ + t1 + ")"@);
    assert(clause_head(wc) + "("@ + (t2 + ")"@) =~= clause_head(wc) + "("@ + t2 + ")"@);
    let op = wc.operator@;
    let head = clause_head(wc);
    assert("in"@ != "or"@) by {
        assert("in"@[0] != "or"@[0]);
    }
    if op == "in"@ || op == "not in"@ {
        assert(!(op == "between"@ || op == "not between"@ || op == "or"@));
        assert(connector(op) == Some(", "@));
        assert(clause_outcome(wc) == crate::sql_spec::then_append(
            SqlOutcome::Text(head + "("@),
            crate::sql_spec::then_append(items_outcome(items, up, ", "@), SqlOutcome::Text(")"@)),
        ));
        assert(clause_outcome(wc) == SqlOutcome::Text(head + "("@ + join(texts, ", "@) + ")"@));
    } else if op == "between"@ || op == "not between"@ || op == "or"@ {
        assert(connector(op) == Some(" AND "@));
        assert(clause_outcome(wc) == crate::sql_spec::then_append(
            SqlOutcome::Text(head + "("@),
            crate::sql_spec::then_append(items_outcome(items, up, " AND "@), SqlOutcome::Text(")"@)),
        ));
        assert(clause_outcome(wc) == SqlOutcome::Text(head + "("@ + join(texts, " AND "@) + ")"@));
    } else {
        assert(connector(op) is None);
    }
}

/// The joins of two runs of rules are those of the first, then those of the
/// second.
pub proof fn law_rules_joins_concatenate(
    xs: Seq<PermissionsView>,
    ys: Seq<PermissionsView>,
    select: bool,
    key: Seq<char>,
    fields: Seq<Field>,
)
    ensures
        rules_joiners(xs + ys, select, key, fields) == rules_joiners(xs, select, key, fields) + rules_joiners(
            ys,
            select,
            key,
            fields,
        ),
    decreases ys.len(),
{
    if ys.len() == 0 {
        assert(xs + ys =~= xs);
        assert(rules_joiners(xs, select, key, fields) + rules_joiners(ys, select, key, fields) =~= rules_joiners(
            xs,
            select,
            key,
            fields,
        ));
    } else {
        law_rules_joins_concatenate(xs, ys.drop_last(), select, key, fields);
        assert((xs + ys).drop_last() =~= xs + ys.drop_last());
        assert((xs + ys).last() == ys.last());
    }
}

/// Every rule adds its joins: where a rule applies, controls the action (reading
/// for a SELECT, writing for the others) and has joins `j`, the joins of the rules
/// are those of the rules before it, then ` ` and `j`, then those of the rules
/// after it.
pub proof fn law_every_rule_adds_its_joins(
    ps: Seq<PermissionsView>,
    select: bool,
    key: Seq<char>,
    fields: Seq<Field>,
    i: int,
)
    requires
        0 <= i < ps.len(),
        rule_applies(ps[i], key, fields),
        ps[i].joiners is Some,
        if select {
            ps[i].uid_read is Some
        } else {
            ps[i].uid_write is Some
        },
    ensures
        rules_joiners(ps, select, key, fields) == rules_joiners(ps.take(i), select, key, fields) + " "@
            + ps[i].joiners.unwrap() + rules_joiners(ps.skip(i + 1), select, key, fields),
{
    let one = seq![ps[i]];
    assert(ps =~= ps.take(i) + one + ps.skip(i + 1));
    law_rules_joins_concatenate(ps.take(i) + one, ps.skip(i + 1), select, key, fields);
    law_rules_joins_concatenate(ps.take(i), one, select, key, fields);
    assert(one.drop_last() =~= Seq::<PermissionsView>::empty());
    assert(one.last() == ps[i]);
    assert(rules_joiners(Seq::<PermissionsView>::empty(), select, key, fields) == Seq::<char>::empty());
    assert(rules_joiners(one, select, key, fields) == rules_joiners(one.drop_last(), select, key, fields)
        + " "@ + ps[i].joiners.unwrap());
    assert(rules_joiners(one, select, key, fields) == " "@ + ps[i].joiners.unwrap());
    assert(rules_joiners(ps.take(i), select, key, fields) + (" "@ + ps[i].joiners.unwrap())
        =~= rules_joiners(ps.take(i), select, key, fields) + " "@ + ps[i].joiners.unwrap());
}

/// A simple item of a value is written as SQL: a string between single quotes
/// (its quotes doubled), a number as its text, `true`, `false` or `null`; the
/// whole inside `UPPER(..)` where the condition asks for upper case.
pub proof fn law_item_text(it: JsonItem, up: bool)
    ensures
        ({
            let wrap = |t: Seq<char>| if up { "UPPER("@ + t + ")"@ } else { t };
            &&& it is Null ==> item_outcome(it, up) == SqlOutcome::Text(wrap("null"@))
            &&& it == JsonItem::Bool(true) ==> item_outcome(it, up) == SqlOutcome::Text(wrap("true"@))
            &&& it == JsonItem::Bool(false) ==> item_outcome(it, up) == SqlOutcome::Text(wrap("false"@))
            &&& it matches JsonItem::Number(t) ==> item_outcome(it, up) == SqlOutcome::Text(wrap(t@))
            &&& it matches JsonItem::Str(v) ==> item_outcome(it, up) == SqlOutcome::Text(
                wrap("'"@ + quote_escaped(v@) + "'"@),
            )
            &&& it is Unreadable ==> item_outcome(it, up) == SqlOutcome::Refused(ErrorKind::NotImplemented)
        }),
{
}

/// A condition begins with its field (`table.column` or `column`, inside
/// `UPPER(..)` exactly where its commands are `UPPER_CASE`), then its operator
/// between single spaces; with no value, that is the whole condition, and with a
/// single item, the item follows.
pub proof fn law_condition_text(wc: WhereClause)
    ensures
        ({
            let up = wc.commands matches Some(c) && c@ == "UPPER_CASE"@;
            let field = match wc.field {
                Some(f) => {
                    let r = match f.table {
                        Some(t) => t@ + "."@ + f.column@,
                        None => f.column@,
                    };
                    if up { "UPPER("@ + r + ")"@ } else { r }
                },
                None => Seq::<char>::empty(),
            };
            let head = field + " "@ + wc.operator@ + " "@;
            &&& clause_head(wc) == head
            &&& wc.value is None ==> clause_outcome(wc) == SqlOutcome::Text(head)
            &&& wc.value matches Some(WhereValue::Item(it)) ==> ((item_outcome(it, up) is Text) ==> clause_outcome(
                wc,
            ) == SqlOutcome::Text(head + item_outcome(it, up)->Text_0))
        }),
{
}

/// One equality of a join is written `left = right`, each side `table.column` or
/// `column`.
pub proof fn law_join_equality_text(o: FromJoinerOn)
    ensures
        on_text(o) == (match o.left.table {
            Some(t) => t@ + "."@ + o.left.column@,
            None => o.left.column@,
        }) + " = "@ + (match o.right.table {
            Some(t) => t@ + "."@ + o.right.column@,
            None => o.right.column@,
        }),
{
}

/// The joins the rules of two runs of tables add are those of the first run, then
/// those of the second.
pub proof fn law_tables_joins_concatenate(
    map: Map<Seq<char>, Seq<PermissionsView>>,
    xs: Seq<Seq<char>>,
    ys: Seq<Seq<char>>,
    select: bool,
    fields: Seq<Field>,
)
    ensures
        tables_joiners(map, xs + ys, select, fields) == tables_joiners(map, xs, select, fields) + tables_joiners(
            map,
            ys,
            select,
            fields,
        ),
    decreases ys.len(),
{
    if ys.len() == 0 {
        assert(xs + ys =~= xs);
        assert(tables_joiners(map, xs, select, fields) + tables_joiners(map, ys, select, fields) =~= tables_joiners(
            map,
            xs,
            select,
            fields,
        ));
    } else {
        law_tables_joins_concatenate(map, xs, ys.drop_last(), select, fields);
        assert((xs + ys).drop_last() =~= xs + ys.drop_last());
        assert((xs + ys).last() == ys.last());
    }
}

/// The uid columns that the rules of two runs of tables read by are those of the
/// first run, then those of the second.
pub proof fn law_uid_columns_concatenate(
    map: Map<Seq<char>, Seq<PermissionsView>>,
    xs: Seq<Seq<char>>,
    ys: Seq<Seq<char>>,
    fields: Seq<Field>,
)
    ensures
        uid_columns(map, xs + ys, fields) == uid_columns(map, xs, fields) + uid_columns(map, ys, fields),
    decreases ys.len(),
{
    if ys.len() == 0 {
        assert(xs + ys =~= xs);
        assert(uid_columns(map, xs, fields) + uid_columns(map, ys, fields) =~= uid_columns(map, xs, fields));
    } else {
        law_uid_columns_concatenate(map, xs, ys.drop_last(), fields);
        assert((xs + ys).drop_last() =~= xs + ys.drop_last());
        assert((xs + ys).last() == ys.last());
    }
}

/// Every rule that applies and reads by a uid column adds that column: the uid
/// columns of the rules are those of the rules before it, that column, then
/// those of the rules after it.
pub proof fn law_every_read_rule_adds_its_column(
    ps: Seq<PermissionsView>,
    key: Seq<char>,
    fields: Seq<Field>,
    i: int,
)
    requires
        0 <= i < ps.len(),
        rule_applies(ps[i], key, fields),
        ps[i].uid_read is Some,
    ensures
        rules_uid_columns(ps, key, fields) == rules_uid_columns(ps.take(i), key, fields) + seq![
            ps[i].uid_read.unwrap(),
        ] + rules_uid_columns(ps.skip(i + 1), key, fields),
{
    let one = seq![ps[i]];
    assert(ps =~= ps.take(i) + one + ps.skip(i + 1));
    lemma_rules_columns_concatenate(ps.take(i) + one, ps.skip(i + 1), key, fields);
    lemma_rules_columns_concatenate(ps.take(i), one, key, fields);
    assert(one.drop_last() =~= Seq::<PermissionsView>::empty());
    assert(one.last() == ps[i]);
    assert(rules_uid_columns(Seq::<PermissionsView>::empty(), key, fields) == Seq::<Seq<char>>::empty());
    assert(rules_uid_columns(one, key, fields) =~= seq![ps[i].uid_read.unwrap()]);
}

/// The uid columns of two runs of rules: those of the first, then the second's.
proof fn lemma_rules_columns_concatenate(
    xs: Seq<PermissionsView>,
    ys: Seq<PermissionsView>,
    key: Seq<char>,
    fields: Seq<Field>,
)
    ensures
        rules_uid_columns(xs + ys, key, fields) == rules_uid_columns(xs, key, fields) + rules_uid_columns(
            ys,
            key,
            fields,
        ),
    decreases ys.len(),
{
    if ys.len() == 0 {
        assert(xs + ys =~= xs);
        assert(rules_uid_columns(xs, key, fields) + rules_uid_columns(ys, key, fields) =~= rules_uid_columns(
            xs,
            key,
            fields,
        ));
    } else {
        lemma_rules_columns_concatenate(xs, ys.drop_last(), key, fields);
        assert((xs + ys).drop_last() =~= xs + ys.drop_last());
        assert((xs + ys).last() == ys.last());
    }
}

/// The permission conditions are `column = uid` for each uid column, in order,
/// joined by ` AND `.
pub proof fn law_permission_conditions_text(columns: Seq<Seq<char>>, uid: Seq<char>)
    ensures
        permission_sql(columns, uid) == join(
            columns.map_values(|c: Seq<char>| c + " = "@ + uid),
            " AND "@,
        ),
{
    assert(crate::sql_spec::conditions(columns, uid) =~= columns.map_values(|c: Seq<char>| c + " = "@ + uid));
}

} // verus!
