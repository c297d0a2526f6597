//! The permission rules configured for tables.

use vstd::prelude::*;

verus! {

/// One permission rule of a table.
///
/// A table with no rule is public to read. A rule with `uid_read` restricts reading
/// the table to the rows whose `uid_read` column equals the caller's uid; the column
/// may live in a virtual table that `joiners` builds by joining other tables.
pub struct Permissions {
    /// The table the rule belongs to.
    pub table: String,
    /// The column the rule restricts, where it restricts one column only.
    pub column: Option<String>,
    /// The uid column that controls reading.
    pub uid_read: Option<String>,
    /// The uid column that controls writing.
    pub uid_write: Option<String>,
    /// The joins that build the virtual table in which the uid column lives.
    pub joiners: Option<String>,
}

/// The mathematical value of a permission rule.
pub struct PermissionsView {
    pub table: Seq<char>,
    pub column: Option<Seq<char>>,
    pub uid_read: Option<Seq<char>>,
    pub uid_write: Option<Seq<char>>,
    pub joiners: Option<Seq<char>>,
}

/// The view of an optional string.
pub open spec fn opt_view(s: Option<String>) -> Option<Seq<char>> {
    match s {
        Some(t) => Some(t@),
        None => None,
    }
}

impl View for Permissions {
    type V = PermissionsView;

    open spec fn view(&self) -> PermissionsView {
        PermissionsView {
            table: self.table@,
            column: opt_view(self.column),
            uid_read: opt_view(self.uid_read),
            uid_write: opt_view(self.uid_write),
            joiners: opt_view(self.joiners),
        }
    }
}

/// The views of a sequence of rules.
pub open spec fn permissions_view(ps: Seq<Permissions>) -> Seq<PermissionsView> {
    ps.map_values(|p: Permissions| p@)
}

/// A copy of an optional string.
pub fn clone_opt_string(s: &Option<String>) -> (r: Option<String>)
    ensures
        r == *s,
{
    match s {
        Some(t) => Some(t.clone()),
        None => None,
    }
}

impl Permissions {
    /// A copy of this rule.
    pub fn duplicate(&self) -> (r: Permissions)
        ensures
            r == *self,
    {
        Permissions {
            table: self.table.clone(),
            column: clone_opt_string(&self.column),
            uid_read: clone_opt_string(&self.uid_read),
            uid_write: clone_opt_string(&self.uid_write),
            joiners: clone_opt_string(&self.joiners),
        }
    }
}

/// Copies a list of rules, in order.
pub fn clone_permission_list(ps: &Vec<Permissions>) -> (r: Vec<Permissions>)
    ensures
        r@ == ps@,
{
    let mut r: Vec<Permissions> = Vec::new();
    let mut i: usize = 0;
    while i < ps.len()
        invariant
            i <= ps.len(),
            r@ == ps@.take(i as int),
        decreases ps.len() - i,
    {
        r.push(ps[i].duplicate());
        assert(ps@.take(i + 1) == ps@.take(i as int).push(ps@[i as int]));
        i = i + 1;
    }
    assert(ps@.take(ps.len() as int) == ps@);
    r
}

} // verus!
