//! The cross-node shared state: for each (node, entity) pair the latest stat
//! and attributes reported on the bus. Entries are created on first write and
//! never removed; the last write to a field wins.
use crate::text::{integer_value, parse_integer, starts_with, strs_view};
use vstd::prelude::*;

verus! {

/// The value of one entity as last reported.
pub ghost struct EntityModel {
    pub stat: Seq<char>,
    /// The attribute document, as JSON text; empty until first set.
    pub attr: Seq<char>,
}

/// A stored entry: node, entity, value.
pub type EntryModel = (Seq<char>, Seq<char>, EntityModel);

#[derive(Debug, Clone, Default)]
pub struct EntityData {
    pub stat: String,
    /// The attribute document, as JSON text; empty until first set.
    pub attr: String,
}

impl View for EntityData {
    type V = EntityModel;

    open spec fn view(&self) -> EntityModel {
        EntityModel { stat: self.stat@, attr: self.attr@ }
    }
}

impl EntityData {
    fn copy(&self) -> (r: Self)
        ensures
            r@ == self@,
    {
        EntityData { stat: self.stat.clone(), attr: self.attr.clone() }
    }
}

#[derive(Debug)]
struct NodeEntry {
    node: String,
    entity: String,
    data: EntityData,
}

impl NodeEntry {
    spec fn model(&self) -> EntryModel {
        (self.node@, self.entity@, self.data@)
    }
}

/// The value stored under `(node, entity)`, searching from the newest entry.
pub open spec fn lookup<V>(s: Seq<(Seq<char>, Seq<char>, V)>, node: Seq<char>, entity: Seq<char>) -> Option<V>
    decreases s.len(),
{
    if s.len() == 0 {
        None
    } else if s.last().0 == node && s.last().1 == entity {
        Some(s.last().2)
    } else {
        lookup(s.drop_last(), node, entity)
    }
}

/// No two entries share a (node, entity) key.
pub open spec fn keys_unique<V>(s: Seq<(Seq<char>, Seq<char>, V)>) -> bool {
    forall|i: int, j: int|
        0 <= i < s.len() && 0 <= j < s.len() && i != j ==> !(s[i].0 == s[j].0 && s[i].1 == s[j].1)
}

/// What `update_stat` leaves under a key.
pub open spec fn stat_written(before: Option<EntityModel>, stat: Seq<char>) -> EntityModel {
    match before {
        Some(d) => EntityModel { stat, ..d },
        None => EntityModel { stat, attr: Seq::<char>::empty() },
    }
}

/// What `update_attr` leaves under a key.
pub open spec fn attr_written(before: Option<EntityModel>, attr: Seq<char>) -> EntityModel {
    match before {
        Some(d) => EntityModel { attr, ..d },
        None => EntityModel { stat: Seq::<char>::empty(), attr },
    }
}

/// `after` is `before` with `key` set to `value` and every other key kept.
pub open spec fn written(
    before: Seq<EntryModel>,
    after: Seq<EntryModel>,
    node: Seq<char>,
    entity: Seq<char>,
    value: EntityModel,
) -> bool {
    &&& keys_unique(after)
    &&& lookup(after, node, entity) == Some(value)
    &&& forall|n: Seq<char>, e: Seq<char>|
        !(n == node && e == entity) ==> #[trigger] lookup(after, n, e) == lookup(before, n, e)
}

/// Entries whose entity name starts with `prefix`, in store order.
pub open spec fn with_prefix(s: Seq<EntryModel>, prefix: Seq<char>) -> Seq<EntryModel>
    decreases s.len(),
{
    if s.len() == 0 {
        Seq::<EntryModel>::empty()
    } else if prefix.is_prefix_of(s.last().1) {
        with_prefix(s.drop_last(), prefix).push(s.last())
    } else {
        with_prefix(s.drop_last(), prefix)
    }
}

pub proof fn lemma_lookup_at<V>(s: Seq<(Seq<char>, Seq<char>, V)>, i: int)
    requires
        keys_unique(s),
        0 <= i < s.len(),
    ensures
        lookup(s, s[i].0, s[i].1) == Some(s[i].2),
    decreases s.len(),
{
    if i < s.len() - 1 {
        let p = s.drop_last();
        assert(p[i] == s[i]);
        lemma_lookup_at(p, i);
    }
}

pub proof fn lemma_lookup_absent<V>(s: Seq<(Seq<char>, Seq<char>, V)>, n: Seq<char>, e: Seq<char>)
    requires
        forall|i: int| 0 <= i < s.len() ==> !(s[i].0 == n && s[i].1 == e),
    ensures
        lookup(s, n, e) is None,
    decreases s.len(),
{
    if s.len() > 0 {
        let p = s.drop_last();
        assert forall|i: int| 0 <= i < p.len() implies !(p[i].0 == n && p[i].1 == e) by {
            assert(p[i] == s[i]);
        }
        assert(!(s[s.len() - 1].0 == n && s[s.len() - 1].1 == e));
        lemma_lookup_absent(p, n, e);
    }
}

pub proof fn lemma_lookup_push<V>(s: Seq<(Seq<char>, Seq<char>, V)>, x: (Seq<char>, Seq<char>, V), n: Seq<char>, e: Seq<char>)
    ensures
        lookup(s.push(x), n, e) == (if x.0 == n && x.1 == e {
            Some(x.2)
        } else {
            lookup(s, n, e)
        }),
{
    assert(s.push(x).drop_last() =~= s);
}

pub proof fn lemma_lookup_update<V>(
    s: Seq<(Seq<char>, Seq<char>, V)>,
    i: int,
    x: (Seq<char>, Seq<char>, V),
    n: Seq<char>,
    e: Seq<char>,
)
    requires
        keys_unique(s),
        0 <= i < s.len(),
        x.0 == s[i].0,
        x.1 == s[i].1,
    ensures
        lookup(s.update(i, x), n, e) == (if x.0 == n && x.1 == e {
            Some(x.2)
        } else {
            lookup(s, n, e)
        }),
    decreases s.len(),
{
    let u = s.update(i, x);
    if i == s.len() - 1 {
        assert(u.drop_last() =~= s.drop_last());
    } else {
        let p = s.drop_last();
        assert(u.drop_last() =~= p.update(i, x));
        assert(p[i] == s[i]);
        assert(keys_unique(p)) by {
            assert forall|a: int, b: int|
                0 <= a < p.len() && 0 <= b < p.len() && a != b implies !(p[a].0 == p[b].0
                && p[a].1 == p[b].1) by {
                assert(p[a] == s[a] && p[b] == s[b]);
            }
        }
        lemma_lookup_update(p, i, x, n, e);
        if x.0 == n && x.1 == e {
            assert(!(s.last().0 == s[i].0 && s.last().1 == s[i].1));
        }
    }
}

/// The shared state of the cluster, keyed by (node, entity).
#[derive(Debug, Default)]
pub struct ClusterNodes {
    entries: Vec<NodeEntry>,
}

impl View for ClusterNodes {
    type V = Seq<EntryModel>;

    closed spec fn view(&self) -> Seq<EntryModel> {
        Seq::new(self.entries@.len(), |i: int| self.entries@[i].model())
    }
}

/// The nodes that have an entry, each once.
pub open spec fn node_names_match(s: Seq<EntryModel>, r: Seq<Seq<char>>) -> bool {
    &&& r.no_duplicates()
    &&& forall|n: Seq<char>| r.contains(n) <==> exists|i: int| 0 <= i < s.len() && #[trigger] s[i].0 == n
}

/// The entities that have an entry on some node, each once.
pub open spec fn entity_names_match(s: Seq<EntryModel>, r: Seq<Seq<char>>) -> bool {
    &&& r.no_duplicates()
    &&& forall|e: Seq<char>| r.contains(e) <==> exists|i: int| 0 <= i < s.len() && #[trigger] s[i].1 == e
}

/// The characters of the triples that `get_dev_id_prefix` returns.
pub open spec fn triples_view(v: Seq<(String, String, EntityData)>) -> Seq<EntryModel> {
    Seq::new(v.len(), |i: int| (v[i].0@, v[i].1@, v[i].2@))
}

pub(crate) fn contains_str(v: &Vec<String>, s: &String) -> (r: bool)
    ensures
        r == strs_view(v@).contains(s@),
{
    let mut i: usize = 0;
    while i < v.len()
        invariant
            i <= v.len(),
            forall|j: int| 0 <= j < i ==> v@[j]@ != s@,
        decreases v.len() - i,
    {
        if v[i] == *s {
            proof {
                assert(strs_view(v@)[i as int] == s@);
            }
            return true;
        }
        i = i + 1;
    }
    proof {
        if strs_view(v@).contains(s@) {
            let k = choose|k: int| 0 <= k < strs_view(v@).len() && strs_view(v@)[k] == s@;
            assert(v@[k]@ == s@);
        }
    }
    false
}

/// Adds `s` to `v` unless it is already there.
fn push_unique(v: &mut Vec<String>, s: String)
    requires
        strs_view(old(v)@).no_duplicates(),
    ensures
        strs_view(final(v)@).no_duplicates(),
        forall|n: Seq<char>|
            #[trigger] strs_view(final(v)@).contains(n) <==> (strs_view(old(v)@).contains(n) || n
                == s@),
{
    let ghost before = strs_view(v@);
    let ghost sv = s@;
    if !contains_str(v, &s) {
        v.push(s);
        proof {
            let after = strs_view(v@);
            assert(after =~= before.push(sv));
            assert forall|a: int, b: int|
                0 <= a < after.len() && 0 <= b < after.len() && a != b implies after[a] != after[b] by {
                if a < before.len() && b < before.len() {
                } else if a < before.len() {
                    assert(before.contains(before[a]));
                } else {
                    assert(before.contains(before[b]));
                }
            }
            assert forall|n: Seq<char>|
                #[trigger] after.contains(n) <==> (before.contains(n) || n == sv) by {
                if before.contains(n) {
                    let k = choose|k: int| 0 <= k < before.len() && before[k] == n;
                    assert(after[k] == n);
                }
                if n == sv {
                    assert(after[before.len() as int] == n);
                }
                if after.contains(n) {
                    let k = choose|k: int| 0 <= k < after.len() && after[k] == n;
                    if k < before.len() {
                        assert(before[k] == n);
                    }
                }
            }
        }
    }
}

impl ClusterNodes {
    pub fn new() -> (r: Self)
        ensures
            r@ == Seq::<EntryModel>::empty(),
            r.wf(),
    {
        ClusterNodes { entries: Vec::new() }
    }

    pub open spec fn wf(&self) -> bool {
        keys_unique(self@)
    }

    /// Index of the entry for `(node, entity)`, if there is one.
    fn find(&self, node: &str, entity: &str) -> (r: Option<usize>)
        requires
            self.wf(),
        ensures
            r matches Some(i) ==> i < self@.len() && self@[i as int].0 == node@ && self@[i as int].1
                == entity@,
            r is None ==> forall|i: int|
                0 <= i < self@.len() ==> !(self@[i].0 == node@ && self@[i].1 == entity@),
    {
        let n = node.to_owned();
        let en = entity.to_owned();
        let mut i: usize = 0;
        while i < self.entries.len()
            invariant
                i <= self.entries@.len(),
                n@ == node@,
                en@ == entity@,
                forall|j: int| 0 <= j < i ==> !(self@[j].0 == node@ && self@[j].1 == entity@),
            decreases self.entries@.len() - i,
        {
            let e = &self.entries[i];
            if e.node == n && e.entity == en {
                return Some(i);
            }
            i = i + 1;
        }
        None
    }

    /// Sets the value under `(node, entity)` to what `f` makes of the old one.
    fn write(&mut self, node: &str, entity: &str, value: EntityData)
        requires
            old(self).wf(),
        ensures
            written(old(self)@, final(self)@, node@, entity@, value@),
            final(self).wf(),
    {
        let ghost before = self@;
        match self.find(node, entity) {
            Some(i) => {
                self.entries.set(i, NodeEntry { node: node.to_owned(), entity: entity.to_owned(), data: value });
                proof {
                    let x = (node@, entity@, value@);
                    assert(self@ =~= before.update(i as int, x));
                    assert forall|n: Seq<char>, e: Seq<char>|
                        true implies #[trigger] lookup(self@, n, e) == (if x.0 == n && x.1 == e {
                            Some(x.2)
                        } else {
                            lookup(before, n, e)
                        }) by {
                        lemma_lookup_update(before, i as int, x, n, e);
                    }
                    assert(keys_unique(self@)) by {
                        assert forall|a: int, b: int|
                            0 <= a < self@.len() && 0 <= b < self@.len() && a != b implies !(
                            self@[a].0 == self@[b].0 && self@[a].1 == self@[b].1) by {
                            if a != i && b != i {
                                assert(self@[a] == before[a] && self@[b] == before[b]);
                            } else if a == i {
                                assert(self@[b] == before[b]);
                            } else {
                                assert(self@[a] == before[a]);
                            }
                        }
                    }
                }
            },
            None => {
                self.entries.push(NodeEntry { node: node.to_owned(), entity: entity.to_owned(), data: value });
                proof {
                    let x = (node@, entity@, value@);
                    assert(self@ =~= before.push(x));
                    assert forall|n: Seq<char>, e: Seq<char>|
                        true implies #[trigger] lookup(self@, n, e) == (if x.0 == n && x.1 == e {
                            Some(x.2)
                        } else {
                            lookup(before, n, e)
                        }) by {
                        lemma_lookup_push(before, x, n, e);
                    }
                    assert(keys_unique(self@)) by {
                        assert forall|a: int, b: int|
                            0 <= a < self@.len() && 0 <= b < self@.len() && a != b implies !(
                            self@[a].0 == self@[b].0 && self@[a].1 == self@[b].1) by {
                            if a < before.len() && b < before.len() {
                                assert(self@[a] == before[a] && self@[b] == before[b]);
                            } else if a < before.len() {
                                assert(self@[a] == before[a]);
                            } else {
                                assert(self@[b] == before[b]);
                            }
                        }
                    }
                }
            },
        }
    }

    /// The value stored under `(node, entity)`.
    fn get(&self, node: &str, entity: &str) -> (r: Option<EntityData>)
        requires
            self.wf(),
        ensures
            match r {
                Some(d) => lookup(self@, node@, entity@) == Some(d@),
                None => lookup(self@, node@, entity@) is None,
            },
    {
        match self.find(node, entity) {
            Some(i) => {
                proof {
                    lemma_lookup_at(self@, i as int);
                }
                Some(self.entries[i].data.copy())
            },
            None => {
                proof {
                    lemma_lookup_absent(self@, node@, entity@);
                }
                None
            },
        }
    }

    /// Sets the stat of `(node, entity)`, creating the entry if needed.
    pub fn update_stat(&mut self, node: &str, entity: &str, stat: String)
        requires
            old(self).wf(),
        ensures
            written(
                old(self)@,
                final(self)@,
                node@,
                entity@,
                stat_written(lookup(old(self)@, node@, entity@), stat@),
            ),
            final(self).wf(),
    {
        let value = match self.get(node, entity) {
            Some(d) => EntityData { stat, attr: d.attr },
            None => EntityData { stat, attr: String::new() },
        };
        self.write(node, entity, value);
    }

    /// Sets the attributes of `(node, entity)`, creating the entry if needed.
    pub fn update_attr(&mut self, node: &str, entity: &str, attr: String)
        requires
            old(self).wf(),
        ensures
            written(
                old(self)@,
                final(self)@,
                node@,
                entity@,
                attr_written(lookup(old(self)@, node@, entity@), attr@),
            ),
            final(self).wf(),
    {
        let value = match self.get(node, entity) {
            Some(d) => EntityData { stat: d.stat, attr },
            None => EntityData { stat: String::new(), attr },
        };
        self.write(node, entity, value);
    }

    /// Every node that has reported something, each once.
    pub fn get_nodes(&self) -> (r: Vec<String>)
        ensures
            node_names_match(self@, strs_view(r@)),
    {
        let mut out: Vec<String> = Vec::new();
        let mut i: usize = 0;
        while i < self.entries.len()
            invariant
                i <= self.entries@.len(),
                strs_view(out@).no_duplicates(),
                forall|n: Seq<char>|
                    strs_view(out@).contains(n) <==> exists|j: int| 0 <= j < i && #[trigger] self@[j].0 == n,
            decreases self.entries@.len() - i,
        {
            let name = self.entries[i].node.clone();
            let ghost before = strs_view(out@);
            proof {
                assert(self@[i as int].0 == name@);
            }
            push_unique(&mut out, name);
            proof {
                assert forall|n: Seq<char>|
                    strs_view(out@).contains(n) <==> exists|j: int| 0 <= j < i + 1 && #[trigger] self@[j].0 == n by {
                    if exists|j: int| 0 <= j < i + 1 && #[trigger] self@[j].0 == n {
                        let j = choose|j: int| 0 <= j < i + 1 && #[trigger] self@[j].0 == n;
                        if j < i {
                            assert(before.contains(n));
                        }
                    }
                    if before.contains(n) {
                        assert(exists|j: int| 0 <= j < i && #[trigger] self@[j].0 == n);
                    }
                }
            }
            i = i + 1;
        }
        out
    }

    /// Every entity name reported by some node, each once.
    pub fn get_entities(&self) -> (r: Vec<String>)
        ensures
            entity_names_match(self@, strs_view(r@)),
    {
        let mut out: Vec<String> = Vec::new();
        let mut i: usize = 0;
        while i < self.entries.len()
            invariant
                i <= self.entries@.len(),
                strs_view(out@).no_duplicates(),
                forall|n: Seq<char>|
                    strs_view(out@).contains(n) <==> exists|j: int| 0 <= j < i && #[trigger] self@[j].1 == n,
            decreases self.entries@.len() - i,
        {
            let name = self.entries[i].entity.clone();
            let ghost before = strs_view(out@);
            proof {
                assert(self@[i as int].1 == name@);
            }
            push_unique(&mut out, name);
            proof {
                assert forall|n: Seq<char>|
                    strs_view(out@).contains(n) <==> exists|j: int| 0 <= j < i + 1 && #[trigger] self@[j].1 == n by {
                    if exists|j: int| 0 <= j < i + 1 && #[trigger] self@[j].1 == n {
                        let j = choose|j: int| 0 <= j < i + 1 && #[trigger] self@[j].1 == n;
                        if j < i {
                            assert(before.contains(n));
                        }
                    }
                    if before.contains(n) {
                        assert(exists|j: int| 0 <= j < i && #[trigger] self@[j].1 == n);
                    }
                }
            }
            i = i + 1;
        }
        out
    }

    /// Every (node, entity, data) whose entity name starts with `dev_id`.
    pub fn get_dev_id_prefix(&self, dev_id: &str) -> (r: Vec<(String, String, EntityData)>)
        ensures
            triples_view(r@) == with_prefix(self@, dev_id@),
    {
        let mut out: Vec<(String, String, EntityData)> = Vec::new();
        let mut i: usize = 0;
        while i < self.entries.len()
            invariant
                i <= self.entries@.len(),
                triples_view(out@) == with_prefix(self@.subrange(0, i as int), dev_id@),
            decreases self.entries@.len() - i,
        {
            let e = &self.entries[i];
            let ghost pre = self@.subrange(0, i as int);
            proof {
                let t = self@.subrange(0, i + 1);
                assert(t.drop_last() =~= pre);
                assert(t.last() == self@[i as int]);
            }
            if starts_with(e.entity.as_str(), dev_id) {
                out.push((e.node.clone(), e.entity.clone(), e.data.copy()));
                proof {
                    assert(triples_view(out@) =~= with_prefix(pre, dev_id@).push(self@[i as int]));
                }
            }
            i = i + 1;
        }
        proof {
            assert(self@.subrange(0, self@.len() as int) =~= self@);
        }
        out
    }
}


/// One write to the store, as a mathematical value.
pub ghost enum UpdateOp {
    Stat { node: Seq<char>, entity: Seq<char>, value: Seq<char> },
    Attr { node: Seq<char>, entity: Seq<char>, value: Seq<char> },
}

impl UpdateOp {
    pub open spec fn touches(self, n: Seq<char>, e: Seq<char>) -> bool {
        match self {
            UpdateOp::Stat { node, entity, .. } => node == n && entity == e,
            UpdateOp::Attr { node, entity, .. } => node == n && entity == e,
        }
    }

    /// `after` is what `update_stat` or `update_attr` makes of `before`.
    pub open spec fn step(self, before: Seq<EntryModel>, after: Seq<EntryModel>) -> bool {
        match self {
            UpdateOp::Stat { node, entity, value } => written(
                before,
                after,
                node,
                entity,
                stat_written(lookup(before, node, entity), value),
            ),
            UpdateOp::Attr { node, entity, value } => written(
                before,
                after,
                node,
                entity,
                attr_written(lookup(before, node, entity), value),
            ),
        }
    }
}

/// The stat of the last write of a stat to `(n, e)`.
pub open spec fn last_stat(ops: Seq<UpdateOp>, n: Seq<char>, e: Seq<char>) -> Option<Seq<char>>
    decreases ops.len(),
{
    if ops.len() == 0 {
        None
    } else {
        match ops.last() {
            UpdateOp::Stat { node, entity, value } => if node == n && entity == e {
                Some(value)
            } else {
                last_stat(ops.drop_last(), n, e)
            },
            UpdateOp::Attr { .. } => last_stat(ops.drop_last(), n, e),
        }
    }
}

/// The attributes of the last write of attributes to `(n, e)`.
pub open spec fn last_attr(ops: Seq<UpdateOp>, n: Seq<char>, e: Seq<char>) -> Option<Seq<char>>
    decreases ops.len(),
{
    if ops.len() == 0 {
        None
    } else {
        match ops.last() {
            UpdateOp::Attr { node, entity, value } => if node == n && entity == e {
                Some(value)
            } else {
                last_attr(ops.drop_last(), n, e)
            },
            UpdateOp::Stat { .. } => last_attr(ops.drop_last(), n, e),
        }
    }
}

/// Last write wins: whatever the order in which updates to various keys are
/// applied, the stat and the attributes of each (node, entity) are those of
/// the last write to that field, and a key that no update touched keeps its
/// value.
pub proof fn lemma_last_write_wins(
    states: Seq<Seq<EntryModel>>,
    ops: Seq<UpdateOp>,
    n: Seq<char>,
    e: Seq<char>,
)
    requires
        states.len() == ops.len() + 1,
        forall|i: int| 0 <= i < ops.len() ==> #[trigger] ops[i].step(states[i], states[i + 1]),
    ensures
        last_stat(ops, n, e) matches Some(v) ==> lookup(states.last(), n, e) matches Some(d) && d.stat
            == v,
        last_attr(ops, n, e) matches Some(a) ==> lookup(states.last(), n, e) matches Some(d) && d.attr
            == a,
        (forall|i: int| 0 <= i < ops.len() ==> !(#[trigger] ops[i].touches(n, e))) ==> lookup(
            states.last(),
            n,
            e,
        ) == lookup(states[0], n, e),
    decreases ops.len(),
{
    if ops.len() > 0 {
        let k = ops.len() - 1;
        let ps = states.drop_last();
        let po = ops.drop_last();
        assert forall|i: int| 0 <= i < po.len() implies #[trigger] po[i].step(ps[i], ps[i + 1]) by {
            assert(po[i] == ops[i]);
            assert(ps[i] == states[i] && ps[i + 1] == states[i + 1]);
            assert(ops[i].step(states[i], states[i + 1]));
        }
        lemma_last_write_wins(ps, po, n, e);
        assert(ops[k].step(states[k], states[k + 1]));
        assert(ps.last() == states[k]);
        assert(states.last() == states[k + 1]);
        if forall|i: int| 0 <= i < ops.len() ==> !(#[trigger] ops[i].touches(n, e)) {
            assert forall|i: int| 0 <= i < po.len() implies !(#[trigger] po[i].touches(n, e)) by {
                assert(po[i] == ops[i]);
                assert(!ops[i].touches(n, e));
            }
            assert(!ops[k].touches(n, e));
        }
    }
}

/// The prefix query returns every stored (node, entity, data) whose entity
/// name starts with the prefix, and nothing else.
pub proof fn lemma_prefix_query(s: Seq<EntryModel>, prefix: Seq<char>, x: EntryModel)
    ensures
        with_prefix(s, prefix).contains(x) <==> (s.contains(x) && prefix.is_prefix_of(x.1)),
    decreases s.len(),
{
    if s.len() > 0 {
        let p = s.drop_last();
        lemma_prefix_query(p, prefix, x);
        let w = with_prefix(p, prefix);
        if p.contains(x) {
            let k = choose|k: int| 0 <= k < p.len() && p[k] == x;
            assert(s[k] == x);
        }
        if s.contains(x) {
            let k = choose|k: int| 0 <= k < s.len() && s[k] == x;
            if k < p.len() {
                assert(p[k] == x);
            }
        }
        if prefix.is_prefix_of(s.last().1) {
            let w2 = w.push(s.last());
            assert(w2[w.len() as int] == s.last());
            if w.contains(x) {
                let k = choose|k: int| 0 <= k < w.len() && w[k] == x;
                assert(w2[k] == x);
            }
            if w2.contains(x) {
                let k = choose|k: int| 0 <= k < w2.len() && w2[k] == x;
                if k < w.len() {
                    assert(w[k] == x);
                }
            }
            assert(s[s.len() - 1] == s.last());
        }
    }
}

/// The stat of an entry read as an integer, when it is one.
pub open spec fn stat_number(x: EntryModel) -> Option<int> {
    integer_value(x.2.stat)
}

/// Entry `i` has the greatest numeric stat, and is the first to have it.
pub open spec fn first_max_stat(s: Seq<EntryModel>, i: int) -> bool {
    &&& 0 <= i < s.len()
    &&& stat_number(s[i]) is Some
    &&& forall|j: int|
        0 <= j < s.len() && #[trigger] stat_number(s[j]) is Some ==> stat_number(s[j])->0
            <= stat_number(s[i])->0
    &&& forall|j: int|
        0 <= j < i && #[trigger] stat_number(s[j]) is Some ==> stat_number(s[j])->0 < stat_number(
            s[i],
        )->0
}

/// Aggregation where the greatest stat wins: among entries whose stat reads
/// as an integer, the stat and the node of the first with the greatest value.
pub fn max_stat(entries: &Vec<(String, String, EntityData)>) -> (r: Option<(String, String)>)
    ensures
        r is None <==> forall|i: int|
            0 <= i < entries@.len() ==> #[trigger] stat_number(triples_view(entries@)[i]) is None,
        r matches Some((value, node)) ==> exists|i: int|
            first_max_stat(triples_view(entries@), i) && value@ == entries@[i].2.stat@ && node@
                == entries@[i].0@,
{
    let ghost s = triples_view(entries@);
    let mut best: Option<(usize, i64)> = None;
    let mut i: usize = 0;
    while i < entries.len()
        invariant
            s == triples_view(entries@),
            i <= entries@.len(),
            best is None ==> forall|j: int| 0 <= j < i ==> #[trigger] stat_number(s[j]) is None,
            best matches Some((b, bv)) ==> {
                &&& b < i
                &&& stat_number(s[b as int]) == Some(bv as int)
                &&& forall|j: int|
                    0 <= j < i && #[trigger] stat_number(s[j]) is Some ==> stat_number(s[j])->0
                        <= bv
                &&& forall|j: int|
                    0 <= j < b && #[trigger] stat_number(s[j]) is Some ==> stat_number(s[j])->0
                        < bv
            },
        decreases entries@.len() - i,
    {
        let v = parse_integer(entries[i].2.stat.as_str());
        assert(s[i as int].2.stat == entries@[i as int].2.stat@);
        match v {
            Some(x) => {
                match best {
                    None => {
                        best = Some((i, x));
                    },
                    Some((b, bv)) => {
                        if x > bv {
                            best = Some((i, x));
                        }
                    },
                }
            },
            None => {},
        }
        i = i + 1;
    }
    match best {
        None => None,
        Some((b, _)) => {
            let value = entries[b].2.stat.clone();
            let node = entries[b].0.clone();
            proof {
                assert(first_max_stat(s, b as int));
            }
            Some((value, node))
        },
    }
}

impl ClusterNodes {
    /// The leader's "greatest stat wins" pass over the entities whose name
    /// starts with `prefix`: the stat and the origin node of the first stored
    /// entry with the greatest integer stat among them.
    pub fn max_stat_with_prefix(&self, prefix: &str) -> (r: Option<(String, String)>)
        ensures
            r is None <==> forall|i: int|
                0 <= i < with_prefix(self@, prefix@).len() ==> #[trigger] stat_number(
                    with_prefix(self@, prefix@)[i],
                ) is None,
            r matches Some((value, node)) ==> exists|i: int|
                first_max_stat(with_prefix(self@, prefix@), i) && value@ == with_prefix(
                    self@,
                    prefix@,
                )[i].2.stat && node@ == with_prefix(self@, prefix@)[i].0,
    {
        let entries = self.get_dev_id_prefix(prefix);
        let r = max_stat(&entries);
        proof {
            let w = with_prefix(self@, prefix@);
            assert(triples_view(entries@) == w);
            if r is Some {
                let (value, node) = r->0;
                let i = choose|i: int|
                    first_max_stat(triples_view(entries@), i) && value@ == entries@[i].2.stat@ && node@
                        == entries@[i].0@;
                assert(w[i].2.stat == entries@[i].2.stat@);
                assert(w[i].0 == entries@[i].0@);
            }
        }
        r
    }
}

} // verus!
