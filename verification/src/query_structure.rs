//! The structured query that a client sends.

use vstd::prelude::*;

verus! {

/// A structured query: what to do, which fields, from which tables, under which
/// conditions, in which order and how many rows.
pub struct QueryStructure {
    pub action: QueryStructureAction,
    pub fields: Vec<Field>,
    pub from: QueryStructureFrom,
    pub where_clause: Vec<WhereClause>,
    pub order_by: Vec<OrderByClause>,
    pub limit: Option<i32>,
}

/// An ordering on one field; `operator` is `asc`, `desc` or empty.
pub struct OrderByClause {
    pub field: Field,
    pub operator: String,
}

/// A column, optionally qualified by its table; `commands` may ask for
/// `UPPER_CASE`.
pub struct Field {
    pub table: Option<String>,
    pub column: String,
    pub commands: Option<String>,
}

/// One condition: a field, an operator and a value.
pub struct WhereClause {
    pub field: Option<Field>,
    pub operator: String,
    pub value: Option<WhereValue>,
    pub commands: Option<String>,
}

/// The value of a condition: a list of items, or a single item.
pub enum WhereValue {
    Array(Vec<JsonItem>),
    Item(JsonItem),
}

/// One item of a condition's value, as the client's JSON gives it.
pub enum JsonItem {
    /// JSON `null`.
    Null,
    /// A JSON boolean.
    Bool(bool),
    /// A JSON number, as the text of its value as a double.
    Number(String),
    /// A JSON string.
    Str(String),
    /// A JSON value that reads as a nested condition.
    Clause(Box<WhereClause>),
    /// A JSON value that is none of the above.
    Unreadable,
}

/// What the query does.
#[derive(Clone, Copy, Debug, PartialEq, Eq, Structural)]
pub enum QueryStructureAction {
    SELECT,
    UPDATE,
    DELETE,
}

/// One equality of a join: `left = right`.
pub struct FromJoinerOn {
    pub left: Field,
    pub right: Field,
}

/// A joined table, the kind of join (`LEFT_JOIN`) and the equalities it joins on.
pub struct FromJoiner {
    pub join_type: String,
    pub table: String,
    pub on: Vec<FromJoinerOn>,
}

/// The main table and the tables joined to it.
pub struct QueryStructureFrom {
    pub main: String,
    pub joins: Vec<FromJoiner>,
}

} // verus!
