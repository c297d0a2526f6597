//! The permission rules grouped by table.

use vstd::prelude::*;
use crate::permissions::{Permissions, PermissionsView, permissions_view};
use crate::text::{lowercased, to_lowercase};

verus! {

/// The rules of each table, keyed by table name, each table's rules in the order
/// they were given.
pub struct TablePermissionMap {
    keys: Vec<String>,
    groups: Vec<Vec<Permissions>>,
}

/// The rules of `ps` whose table is `key` once lower-cased, in order.
pub open spec fn rules_of(ps: Seq<PermissionsView>, key: Seq<char>) -> Seq<PermissionsView> {
    ps.filter(|p: PermissionsView| lowercased(p.table) == key)
}

/// The rules of `ps` grouped by their lower-cased table name: the keys are the
/// lower-cased names of the tables that have a rule, and each key holds the rules
/// of that table in the order of `ps`.
pub open spec fn grouped(ps: Seq<PermissionsView>) -> Map<Seq<char>, Seq<PermissionsView>> {
    Map::new(
        |k: Seq<char>| exists|i: int| 0 <= i < ps.len() && lowercased(ps[i].table) == k,
        |k: Seq<char>| rules_of(ps, k),
    )
}

/// A table whose name no rule has has no rule.
proof fn lemma_rules_of_absent(ps: Seq<PermissionsView>, key: Seq<char>)
    requires
        forall|i: int| 0 <= i < ps.len() ==> lowercased(#[trigger] ps[i].table) != key,
    ensures
        rules_of(ps, key) =~= Seq::<PermissionsView>::empty(),
    decreases ps.len(),
{
    reveal(Seq::filter);
    if ps.len() > 0 {
        lemma_rules_of_absent(ps.drop_last(), key);
        assert(lowercased(ps[ps.len() - 1].table) != key);
    }
}

/// Grouping one more rule appends it to the rules of its table.
proof fn lemma_grouped_push(ps: Seq<PermissionsView>, p: PermissionsView)
    ensures
        grouped(ps.push(p)) =~= grouped(ps).insert(
            lowercased(p.table),
            if grouped(ps).contains_key(lowercased(p.table)) {
                grouped(ps)[lowercased(p.table)].push(p)
            } else {
                seq![p]
            },
        ),
{
    let qs = ps.push(p);
    let lk = lowercased(p.table);
    assert(qs.drop_last() =~= ps);
    assert forall|k: Seq<char>| #[trigger] grouped(qs).contains_key(k) implies rules_of(qs, k) == (
        if k == lk {
            if grouped(ps).contains_key(lk) { rules_of(ps, lk).push(p) } else { seq![p] }
        } else {
            rules_of(ps, k)
        }) by {
        reveal(Seq::filter);
        if k == lk && !grouped(ps).contains_key(lk) {
            lemma_rules_of_absent(ps, lk);
        }
    }
    assert forall|k: Seq<char>| #[trigger] grouped(qs).contains_key(k) <==> (grouped(ps).contains_key(k) || k == lk) by {
        if grouped(ps).contains_key(k) {
            let i = choose|i: int| 0 <= i < ps.len() && lowercased(ps[i].table) == k;
            assert(qs[i] == ps[i]);
        }
        if k == lk {
            assert(qs[ps.len() as int] == p);
        }
        if grouped(qs).contains_key(k) && k != lk {
            let i = choose|i: int| 0 <= i < qs.len() && lowercased(qs[i].table) == k;
            assert(i < ps.len());
            assert(ps[i] == qs[i]);
        }
    }
}

/// Grouping keeps every rule, under the lower-cased name of its table, and the
/// rules under a key are only rules whose table lower-cases to it.
pub proof fn law_rules_are_grouped_by_table(ps: Seq<PermissionsView>, i: int, key: Seq<char>)
    requires
        0 <= i < ps.len(),
    ensures
        grouped(ps).contains_key(lowercased(ps[i].table)),
        grouped(ps)[lowercased(ps[i].table)].contains(ps[i]),
        grouped(ps).contains_key(key) ==> forall|j: int|
            0 <= j < grouped(ps)[key].len() ==> lowercased(#[trigger] grouped(ps)[key][j].table) == key,
{
    let k = lowercased(ps[i].table);
    let pred = |p: PermissionsView| lowercased(p.table) == k;
    ps.lemma_filter_contains(pred, i);
    let kpred = |p: PermissionsView| lowercased(p.table) == key;
    assert forall|j: int| 0 <= j < rules_of(ps, key).len() implies lowercased(
        #[trigger] rules_of(ps, key)[j].table,
    ) == key by {
        ps.lemma_filter_pred(kpred, j);
    }
}

impl TablePermissionMap {
    /// Keys are distinct and each has its group.
    #[verifier::type_invariant]
    closed spec fn well_formed(self) -> bool {
        &&& self.keys.len() == self.groups.len()
        &&& forall|i: int, j: int|
            0 <= i < self.keys.len() && 0 <= j < self.keys.len() && i != j
                ==> self.keys@[i]@ != self.keys@[j]@
    }

    closed spec fn index_of(self, k: Seq<char>) -> int {
        choose|i: int| 0 <= i < self.keys.len() && self.keys@[i]@ == k
    }

    /// The rules of each table.
    pub closed spec fn spec_map(self) -> Map<Seq<char>, Seq<PermissionsView>> {
        Map::new(
            |k: Seq<char>| exists|i: int| 0 <= i < self.keys.len() && self.keys@[i]@ == k,
            |k: Seq<char>| permissions_view(self.groups@[self.index_of(k)]@),
        )
    }
}

impl View for TablePermissionMap {
    type V = Map<Seq<char>, Seq<PermissionsView>>;

    open spec fn view(&self) -> Map<Seq<char>, Seq<PermissionsView>> {
        self.spec_map()
    }
}

impl TablePermissionMap {
    /// The map with no table.
    pub fn new() -> (m: TablePermissionMap)
        ensures
            m@ == Map::<Seq<char>, Seq<PermissionsView>>::empty(),
    {
        let m = TablePermissionMap { keys: Vec::new(), groups: Vec::new() };
        assert(m@ =~= Map::<Seq<char>, Seq<PermissionsView>>::empty());
        m
    }

    /// Where `table` is a key: its index.
    fn find(&self, table: &String) -> (r: Option<usize>)
        ensures
            match r {
                Some(i) => i < self.keys.len() && self.keys@[i as int]@ == table@,
                None => !self@.contains_key(table@),
            },
    {
        let mut i: usize = 0;
        while i < self.keys.len()
            invariant
                i <= self.keys.len(),
                forall|j: int| 0 <= j < i ==> self.keys@[j]@ != table@,
            decreases self.keys.len() - i,
        {
            if self.keys[i] == *table {
                return Some(i);
            }
            i = i + 1;
        }
        None
    }

    /// The rules of `table`, where it has any. The name is matched exactly.
    pub fn get(&self, table: &String) -> (r: Option<&Vec<Permissions>>)
        ensures
            r is Some <==> self@.contains_key(table@),
            r matches Some(v) ==> permissions_view(v@) == self@[table@],
    {
        proof {
            use_type_invariant(self);
        }
        match self.find(table) {
            Some(i) => {
                assert(self.index_of(table@) == i as int);
                Some(&self.groups[i])
            },
            None => None,
        }
    }

    /// The rules grouped by the lower-cased name of their table, each table's
    /// rules in the order given.
    pub fn from_permissions(ps: Vec<Permissions>) -> (m: TablePermissionMap)
        ensures
            m@ == grouped(permissions_view(ps@)),
    {
        let mut m = TablePermissionMap::new();
        let mut i: usize = 0;
        assert(grouped(permissions_view(ps@.take(0))) =~= Map::<Seq<char>, Seq<PermissionsView>>::empty());
        while i < ps.len()
            invariant
                i <= ps.len(),
                m@ == grouped(permissions_view(ps@.take(i as int))),
            decreases ps.len() - i,
        {
            let p = ps[i].duplicate();
            let key = to_lowercase(p.table.as_str());
            proof {
                assert(permissions_view(ps@.take(i + 1)) =~= permissions_view(ps@.take(i as int)).push(p@));
                lemma_grouped_push(permissions_view(ps@.take(i as int)), p@);
            }
            m.append(key, p);
            i = i + 1;
        }
        assert(ps@.take(ps.len() as int) =~= ps@);
        m
    }

    /// Adds a rule at the end of the rules of `key`.
    pub fn append(&mut self, key: String, p: Permissions)
        ensures
            final(self)@ == old(self)@.insert(
                key@,
                if old(self)@.contains_key(key@) {
                    old(self)@[key@].push(p@)
                } else {
                    seq![p@]
                },
            ),
    {
        proof {
            use_type_invariant(&*self);
        }
        let ghost old_map = self@;
        match self.find(&key) {
            Some(i) => {
                assert(self.index_of(key@) == i as int);
                let mut whole = TablePermissionMap { keys: Vec::new(), groups: Vec::new() };
                std::mem::swap(&mut whole, self);
                let TablePermissionMap { mut keys, mut groups } = whole;
                let mut g = groups.remove(i);
                let ghost old_g = g@;
                g.push(p);
                groups.insert(i, g);
                assert(permissions_view(old_g.push(p)) =~= permissions_view(old_g).push(p@));
                *self = TablePermissionMap { keys, groups };
                assert(self@ =~= old_map.insert(key@, old_map[key@].push(p@)));
            },
            None => {
                let ghost old_whole = *self;
                let mut whole = TablePermissionMap { keys: Vec::new(), groups: Vec::new() };
                std::mem::swap(&mut whole, self);
                let TablePermissionMap { mut keys, mut groups } = whole;
                let ghost n = keys.len();
                keys.push(key);
                let mut g: Vec<Permissions> = Vec::new();
                g.push(p);
                groups.push(g);
                let ghost new_key = keys@[n as int]@;
                let ghost old_self = old_whole;
                *self = TablePermissionMap { keys, groups };
                assert(permissions_view(self.groups@[n as int]@) =~= seq![p@]);
                assert forall|k: Seq<char>| #[trigger] self@.contains_key(k) implies self@[k]
                    == old_map.insert(new_key, seq![p@])[k] by {
                    let j = self.index_of(k);
                    if k == new_key {
                        assert(self.keys@[n as int]@ == k);
                    } else {
                        let oj = old_self.index_of(k);
                        assert(self.keys@[oj]@ == k);
                    }
                }
                assert forall|k: Seq<char>| #[trigger] old_map.insert(new_key, seq![p@]).contains_key(k)
                    implies self@.contains_key(k) by {
                    if k == new_key {
                        assert(self.keys@[n as int]@ == k);
                    } else {
                        let oj = old_self.index_of(k);
                        assert(self.keys@[oj]@ == k);
                    }
                }
                assert forall|k: Seq<char>| #[trigger] self@.contains_key(k)
                    implies old_map.insert(new_key, seq![p@]).contains_key(k) by {
                    let j = self.index_of(k);
                    if j < n {
                        assert(old_self.keys@[j]@ == k);
                    }
                }
                assert(self@ =~= old_map.insert(new_key, seq![p@]));
            },
        }
    }
}

} // verus!
