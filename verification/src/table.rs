//! A small association table: a finite map from keys to values.

use vstd::prelude::*;

verus! {

/// A type that can be the key of a `Table`.
pub trait TableKey: Sized {
    /// What two keys are compared by.
    type Id;

    /// The identity of this key.
    spec fn id(&self) -> Self::Id;

    /// Whether the two keys are the same key.
    fn same_key(&self, other: &Self) -> (r: bool)
        ensures
            r == (self.id() == other.id()),
    ;
}

impl TableKey for Vec<u8> {
    type Id = Seq<u8>;

    open spec fn id(&self) -> Seq<u8> {
        self@
    }

    fn same_key(&self, other: &Self) -> (r: bool) {
        if self.len() != other.len() {
            return false;
        }
        let mut i: usize = 0;
        while i < self.len()
            invariant
                i <= self@.len(),
                self@.len() == other@.len(),
                forall|j: int| 0 <= j < i ==> self@[j] == other@[j],
            decreases self@.len() - i,
        {
            if self[i] != other[i] {
                return false;
            }
            i = i + 1;
        }
        assert(self@ =~= other@);
        true
    }
}

impl TableKey for String {
    type Id = Seq<char>;

    open spec fn id(&self) -> Seq<char> {
        self@
    }

    fn same_key(&self, other: &Self) -> (r: bool) {
        *self == *other
    }
}

impl TableKey for crate::net::IpAddr {
    type Id = crate::net::IpAddr;

    open spec fn id(&self) -> crate::net::IpAddr {
        *self
    }

    fn same_key(&self, other: &Self) -> (r: bool) {
        *self == *other
    }
}

/// A finite map that keeps its entries in a vector, each key once.
pub struct Table<K: TableKey, V> {
    entries: Vec<(K, V)>,
}

/// The part of a map whose values satisfy `p`.
pub open spec fn kept<I, V>(m: Map<I, V>, p: spec_fn(V) -> bool) -> Map<I, V> {
    m.restrict(Set::new(|k: I| m.contains_key(k) && p(m[k])))
}

/// How many values of a map satisfy `p`.
pub open spec fn count_where<I, V>(m: Map<I, V>, p: spec_fn(V) -> bool) -> nat {
    m.dom().filter(|k: I| p(m[k])).len()
}

/// Counting after a key was given a value.
pub proof fn lemma_count_insert<I, V>(m: Map<I, V>, k: I, v: V, p: spec_fn(V) -> bool)
    requires
        m.dom().finite(),
    ensures
        count_where(m.insert(k, v), p) == count_where(m, p) - (if m.contains_key(k) && p(m[k]) {
            1int
        } else {
            0int
        }) + (if p(v) {
            1int
        } else {
            0int
        }),
{
    let a = m.dom().filter(|x: I| p(m[x]));
    let b = m.insert(k, v).dom().filter(|x: I| p(m.insert(k, v)[x]));
    m.dom().lemma_len_filter(|x: I| p(m[x]));
    if p(v) {
        assert(b =~= a.insert(k));
    } else {
        assert(b =~= a.remove(k));
    }
}

/// Counting in the part of a map that was kept, and in the part that was not.
pub proof fn lemma_count_kept<I, V>(m: Map<I, V>, q: spec_fn(V) -> bool, p: spec_fn(V) -> bool)
    requires
        m.dom().finite(),
    ensures
        count_where(m, p) == count_where(kept(m, q), p) + count_where(m, |v: V| p(v) && !q(v)),
{
    let all = m.dom().filter(|x: I| p(m[x]));
    let inside = kept(m, q).dom().filter(|x: I| p(kept(m, q)[x]));
    let outside = m.dom().filter(|x: I| p(m[x]) && !q(m[x]));
    m.dom().lemma_len_filter(|x: I| p(m[x]));
    assert(inside =~= all.filter(|x: I| q(m[x])));
    assert(outside =~= m.dom().filter(|x: I| (|v: V| p(v) && !q(v))(m[x])));
    assert(all =~= inside.union(outside));
    assert(inside.disjoint(outside));
    all.lemma_len_filter(|x: I| q(m[x]));
    m.dom().lemma_len_filter(|x: I| p(m[x]) && !q(m[x]));
    vstd::set_lib::lemma_set_disjoint_lens(inside, outside);
}

/// Predicates that agree on a map's values count alike.
pub proof fn lemma_count_same<I, V>(m: Map<I, V>, p: spec_fn(V) -> bool, q: spec_fn(V) -> bool)
    requires
        forall|k: I| #[trigger] m.contains_key(k) ==> p(m[k]) == q(m[k]),
    ensures
        count_where(m, p) == count_where(m, q),
{
    assert(m.dom().filter(|x: I| p(m[x])) =~= m.dom().filter(|x: I| q(m[x])));
}

impl<K: TableKey, V> View for Table<K, V> {
    type V = Map<K::Id, V>;

    closed spec fn view(&self) -> Map<K::Id, V> {
        Map::new(
            |id: K::Id| self.ids().contains(id),
            |id: K::Id| self.entries@[self.ids().index_of(id)].1,
        )
    }
}

impl<K: TableKey, V> Table<K, V> {
    spec fn ids(&self) -> Seq<K::Id> {
        self.entries@.map_values(|e: (K, V)| e.0.id())
    }

    /// No key occurs twice.
    pub closed spec fn wf(&self) -> bool {
        self.ids().no_duplicates()
    }

    proof fn lemma_at(&self, i: int)
        requires
            self.wf(),
            0 <= i < self.entries@.len(),
        ensures
            self.ids().index_of(self.entries@[i].0.id()) == i,
            self@.contains_key(self.entries@[i].0.id()),
            self@[self.entries@[i].0.id()] == self.entries@[i].1,
    {
        let id = self.entries@[i].0.id();
        assert(self.ids()[i] == id);
        assert(self.ids().contains(id));
    }

    /// A well-formed table holds finitely many keys, one for each entry.
    pub proof fn lemma_len(&self)
        requires
            self.wf(),
        ensures
            self@.dom().finite(),
            self@.len() == self.spec_len(),
    {
        self.ids().unique_seq_to_set();
        assert(self@.dom() =~= self.ids().to_set());
        vstd::seq_lib::seq_to_set_is_finite(self.ids());
    }

    /// The number of entries.
    pub closed spec fn spec_len(&self) -> nat {
        self.entries@.len()
    }

    /// An empty table.
    pub fn new() -> (t: Self)
        ensures
            t.wf(),
            t@ == Map::<K::Id, V>::empty(),
    {
        let t = Table { entries: Vec::new() };
        assert(t@ =~= Map::<K::Id, V>::empty());
        t
    }

    /// The number of keys.
    pub fn len(&self) -> (n: usize)
        requires
            self.wf(),
        ensures
            n == self@.len(),
            self@.dom().finite(),
    {
        proof {
            self.lemma_len();
        }
        self.entries.len()
    }

    fn find(&self, key: &K) -> (r: Option<usize>)
        requires
            self.wf(),
        ensures
            r matches Some(i) ==> i < self.entries@.len() && self.entries@[i as int].0.id()
                == key.id(),
            r is None ==> !self.ids().contains(key.id()),
    {
        let mut i: usize = 0;
        while i < self.entries.len()
            invariant
                i <= self.entries@.len(),
                forall|j: int| 0 <= j < i ==> (#[trigger] self.entries@[j]).0.id() != key.id(),
            decreases self.entries@.len() - i,
        {
            if self.entries[i].0.same_key(key) {
                return Some(i);
            }
            i = i + 1;
        }
        proof {
            assert forall|j: int| 0 <= j < self.ids().len() implies self.ids()[j] != key.id() by {
                assert(self.ids()[j] == self.entries@[j].0.id());
            }
        }
        None
    }

    /// The value of `key`.
    pub fn get(&self, key: &K) -> (r: Option<&V>)
        requires
            self.wf(),
        ensures
            r matches Some(v) ==> self@.contains_key(key.id()) && *v == self@[key.id()],
            r is None <==> !self@.contains_key(key.id()),
    {
        match self.find(key) {
            Some(i) => {
                proof {
                    self.lemma_at(i as int);
                }
                Some(&self.entries[i].1)
            },
            None => None,
        }
    }

    proof fn lemma_push(old_t: Self, new_t: Self, key: K, value: V)
        requires
            old_t.wf(),
            !old_t.ids().contains(key.id()),
            new_t.entries@ == old_t.entries@.push((key, value)),
        ensures
            new_t.wf(),
            new_t@ == old_t@.insert(key.id(), value),
    {
        let n = old_t.entries@.len();
        assert(new_t.ids() =~= old_t.ids().push(key.id()));
        assert(new_t.ids().no_duplicates()) by {
            assert forall|i: int, j: int|
                0 <= i < new_t.ids().len() && 0 <= j < new_t.ids().len() && i
                    != j implies new_t.ids()[i] != new_t.ids()[j] by {
                if i < n {
                    assert(old_t.ids()[i] == new_t.ids()[i]);
                    assert(old_t.ids().contains(old_t.ids()[i]));
                }
                if j < n {
                    assert(old_t.ids()[j] == new_t.ids()[j]);
                    assert(old_t.ids().contains(old_t.ids()[j]));
                }
            }
        }
        assert forall|id: K::Id| new_t@.contains_key(id) <==> old_t@.insert(
            key.id(),
            value,
        ).contains_key(id) by {
            if old_t.ids().contains(id) {
                let k = old_t.ids().index_of(id);
                assert(new_t.ids()[k] == id);
            }
            if id == key.id() {
                assert(new_t.ids()[n as int] == id);
            }
        }
        assert forall|id: K::Id| new_t@.contains_key(id) implies new_t@[id] == old_t@.insert(
            key.id(),
            value,
        )[id] by {
            let k = new_t.ids().index_of(id);
            new_t.lemma_at(k);
            if k < n {
                old_t.lemma_at(k);
                assert(old_t.ids()[k] == id);
                assert(old_t.ids().contains(id));
            }
        }
        assert(new_t@ =~= old_t@.insert(key.id(), value));
    }

    proof fn lemma_replace(old_t: Self, new_t: Self, i: int, value: V)
        requires
            old_t.wf(),
            0 <= i < old_t.entries@.len(),
            new_t.entries@ == old_t.entries@.update(i, (old_t.entries@[i].0, value)),
        ensures
            new_t.wf(),
            new_t@ == old_t@.insert(old_t.entries@[i].0.id(), value),
    {
        assert(new_t.ids() =~= old_t.ids());
        old_t.lemma_at(i);
        assert forall|id: K::Id| new_t@.contains_key(id) implies new_t@[id] == old_t@.insert(
            old_t.entries@[i].0.id(),
            value,
        )[id] by {
            let k = new_t.ids().index_of(id);
            new_t.lemma_at(k);
            old_t.lemma_at(k);
            assert(old_t.ids()[k] == id);
        }
        assert(new_t@ =~= old_t@.insert(old_t.entries@[i].0.id(), value));
    }

    /// Gives `key` the value `value`, in place of the one it had, if any.
    pub fn insert(&mut self, key: K, value: V)
        requires
            old(self).wf(),
        ensures
            final(self).wf(),
            final(self)@ == old(self)@.insert(key.id(), value),
    {
        match self.find(&key) {
            Some(i) => {
                self.entries[i].1 = value;
                proof {
                    Self::lemma_replace(*old(self), *self, i as int, value);
                }
            },
            None => {
                self.entries.push((key, value));
                proof {
                    Self::lemma_push(*old(self), *self, key, value);
                }
            },
        }
    }

    /// A reference to the value of `key`, which is in the table.
    pub fn at_mut(&mut self, key: &K) -> (v: &mut V)
        requires
            old(self).wf(),
            old(self)@.contains_key(key.id()),
        ensures
            *v == old(self)@[key.id()],
            final(self).wf(),
            final(self)@ == old(self)@.insert(key.id(), *final(v)),
    {
        let i: usize = self.find(key).unwrap();
        proof {
            self.lemma_at(i as int);
        }
        let ghost before = *self;
        let r = &mut self.entries[i].1;
        proof {
            assert forall|t: Self|
                t.entries@ == before.entries@.update(
                    i as int,
                    (before.entries@[i as int].0, *final(r)),
                ) implies #[trigger] t.wf() && t@ == before@.insert(
                before.entries@[i as int].0.id(),
                *final(r),
            ) by {
                Self::lemma_replace(before, t, i as int, *final(r));
            }
        }
        r
    }

    /// A reference to the value of `key`, which enters the table with the
    /// value `default` where it is not there yet.
    pub fn entry_mut(&mut self, key: K, default: V) -> (v: &mut V)
        requires
            old(self).wf(),
        ensures
            *v == (if old(self)@.contains_key(key.id()) {
                old(self)@[key.id()]
            } else {
                default
            }),
            final(self).wf(),
            final(self)@ == old(self)@.insert(key.id(), *final(v)),
    {
        let ghost before = *self;
        let i: usize = match self.find(&key) {
            Some(i) => {
                proof {
                    self.lemma_at(i as int);
                }
                i
            },
            None => {
                let n: usize = self.entries.len();
                self.entries.push((key, default));
                proof {
                    Self::lemma_push(before, *self, key, default);
                }
                n
            },
        };
        let ghost mid = *self;
        let r = &mut self.entries[i].1;
        proof {
            assert forall|t: Self|
                t.entries@ == mid.entries@.update(
                    i as int,
                    (mid.entries@[i as int].0, *final(r)),
                ) implies #[trigger] t.wf() && t@ == before@.insert(key.id(), *final(r)) by {
                Self::lemma_replace(mid, t, i as int, *final(r));
                assert(t@ =~= before@.insert(key.id(), *final(r)));
            }
        }
        r
    }

    /// Takes `key` out of the table, with its value.
    pub fn remove(&mut self, key: &K) -> (r: Option<V>)
        requires
            old(self).wf(),
        ensures
            final(self).wf(),
            final(self)@ == old(self)@.remove(key.id()),
            r == (if old(self)@.contains_key(key.id()) {
                Some(old(self)@[key.id()])
            } else {
                None
            }),
    {
        match self.find(key) {
            Some(i) => {
                proof {
                    self.lemma_at(i as int);
                }
                let (_, v) = self.entries.remove(i);
                proof {
                    Self::lemma_removed(*old(self), *self, i as int);
                }
                Some(v)
            },
            None => {
                assert(self@ =~= old(self)@.remove(key.id()));
                None
            },
        }
    }

    proof fn lemma_removed(old_t: Self, new_t: Self, i: int)
        requires
            old_t.wf(),
            0 <= i < old_t.entries@.len(),
            new_t.entries@ == old_t.entries@.remove(i),
        ensures
            new_t.wf(),
            new_t@ == old_t@.remove(old_t.entries@[i].0.id()),
    {
        let gone = old_t.entries@[i].0.id();
        assert(new_t.ids() =~= old_t.ids().remove(i));
        assert forall|a: int, b: int|
            0 <= a < new_t.ids().len() && 0 <= b < new_t.ids().len() && a
                != b implies new_t.ids()[a] != new_t.ids()[b] by {
            let a2 = if a < i { a } else { a + 1 };
            let b2 = if b < i { b } else { b + 1 };
            assert(new_t.ids()[a] == old_t.ids()[a2]);
            assert(new_t.ids()[b] == old_t.ids()[b2]);
        }
        assert forall|id: K::Id| new_t@.contains_key(id) <==> old_t@.remove(gone).contains_key(
            id,
        ) by {
            if new_t.ids().contains(id) {
                let a = new_t.ids().index_of(id);
                let a2 = if a < i { a } else { a + 1 };
                assert(old_t.ids()[a2] == id);
                assert(old_t.ids()[i] == gone);
            }
            if old_t.ids().contains(id) && id != gone {
                let b = old_t.ids().index_of(id);
                assert(old_t.ids()[i] == gone);
                let b2 = if b < i { b } else { b - 1 };
                assert(new_t.ids()[b2] == id);
            }
        }
        assert forall|id: K::Id| new_t@.contains_key(id) implies new_t@[id] == old_t@.remove(
            gone,
        )[id] by {
            let a = new_t.ids().index_of(id);
            let a2 = if a < i { a } else { a + 1 };
            new_t.lemma_at(a);
            old_t.lemma_at(a2);
        }
        assert(new_t@ =~= old_t@.remove(gone));
    }

    /// Empties the table.
    pub fn clear(&mut self)
        ensures
            final(self).wf(),
            final(self)@ == Map::<K::Id, V>::empty(),
    {
        self.entries = Vec::new();
        assert(self@ =~= Map::<K::Id, V>::empty());
    }

    /// Keeps the entries whose value satisfies `keep` and returns how many
    /// were dropped. `p` is what `keep` computes.
    pub fn retain<F: Fn(&V) -> bool>(&mut self, keep: F, Ghost(p): Ghost<spec_fn(V) -> bool>) -> (n:
        usize)
        requires
            old(self).wf(),
            forall|v: &V| call_requires(keep, (v,)),
            forall|v: &V, b: bool| call_ensures(keep, (v,), b) ==> b == p(*v),
        ensures
            final(self).wf(),
            final(self)@ == kept(old(self)@, p),
            final(self)@.dom().finite(),
            n == old(self)@.len() - final(self)@.len(),
            final(self)@.len() <= old(self)@.len(),
    {
        let ghost before = *self;
        let total: usize = self.entries.len();
        let mut rest: Vec<(K, V)> = Vec::new();
        std::mem::swap(&mut rest, &mut self.entries);
        proof {
            before.lemma_len();
            assert(self@ =~= Map::<K::Id, V>::empty());
            assert(rest@ =~= before.entries@.subrange(0, rest@.len() as int));
        }
        while rest.len() > 0
            invariant
                before.wf(),
                self.wf(),
                rest@.len() <= before.entries@.len(),
                rest@ == before.entries@.subrange(0, rest@.len() as int),
                forall|v: &V| call_requires(keep, (v,)),
                forall|v: &V, b: bool| call_ensures(keep, (v,), b) ==> b == p(*v),
                self.entries@.len() <= before.entries@.len() - rest@.len(),
                forall|id: K::Id|
                    #![trigger self@.contains_key(id)]
                    #![trigger before@.contains_key(id)]
                    self@.contains_key(id) <==> before@.contains_key(id) && p(before@[id])
                        && before.ids().index_of(id) >= rest@.len(),
                forall|id: K::Id|
                    #![trigger self@[id]]
                    self@.contains_key(id) ==> self@[id] == before@[id],
            decreases rest@.len(),
        {
            let ghost prev = *self;
            let ghost n = rest@.len() - 1;
            proof {
                before.lemma_at(n);
                assert(before.entries@[n] == rest@[n]);
            }
            match rest.pop() {
                Some((k, v)) => {
                    assert(rest@ =~= before.entries@.subrange(0, rest@.len() as int));
                    let ok = keep(&v);
                    if ok {
                        self.entries.push((k, v));
                        proof {
                            assert(!prev@.contains_key(k.id()));
                            Self::lemma_push(prev, *self, k, v);
                        }
                    }
                    proof {
                        assert forall|id: K::Id|
                            #![trigger self@.contains_key(id)]
                            #![trigger before@.contains_key(id)]
                            self@.contains_key(id) <==> before@.contains_key(id) && p(before@[id])
                                && before.ids().index_of(id) >= rest@.len() by {
                            if before@.contains_key(id) && before.ids().index_of(id) == n {
                                assert(before.ids()[n] == k.id());
                            }
                            assert(prev@.contains_key(id) <==> before@.contains_key(id) && p(
                                before@[id],
                            ) && before.ids().index_of(id) >= n + 1);
                        }
                    }
                },
                None => {},
            }
        }
        proof {
            assert forall|id: K::Id| before@.contains_key(id) implies before.ids().index_of(id)
                >= 0 by {}
            assert(self@ =~= kept(before@, p));
            self.lemma_len();
        }
        total - self.entries.len()
    }

    /// The value of the entry at position `i`.
    pub fn value_at(&self, i: usize) -> (v: &V)
        requires
            self.wf(),
            i < self.spec_len(),
        ensures
            self@.contains_key(self.id_at(i as int)),
            *v == self@[self.id_at(i as int)],
    {
        proof {
            self.lemma_at(i as int);
        }
        &self.entries[i].1
    }

    /// A reference to the value of the entry at position `i`.
    pub fn value_at_mut(&mut self, i: usize) -> (v: &mut V)
        requires
            old(self).wf(),
            i < old(self).spec_len(),
        ensures
            old(self)@.contains_key(old(self).id_at(i as int)),
            *v == old(self)@[old(self).id_at(i as int)],
            final(self).wf(),
            final(self)@ == old(self)@.insert(old(self).id_at(i as int), *final(v)),
            final(self).spec_len() == old(self).spec_len(),
            forall|j: int|
                0 <= j < old(self).spec_len() ==> #[trigger] final(self).id_at(j) == old(
                    self,
                ).id_at(j),
    {
        proof {
            self.lemma_at(i as int);
        }
        let ghost before = *self;
        let r = &mut self.entries[i].1;
        proof {
            assert forall|t: Self|
                t.entries@ == before.entries@.update(
                    i as int,
                    (before.entries@[i as int].0, *final(r)),
                ) implies #[trigger] t.wf() && t@ == before@.insert(
                before.entries@[i as int].0.id(),
                *final(r),
            ) by {
                Self::lemma_replace(before, t, i as int, *final(r));
            }
        }
        r
    }

    /// The identity of the key at position `i`.
    pub closed spec fn id_at(&self, i: int) -> K::Id {
        self.entries@[i].0.id()
    }

    /// The positions run over the keys, each once.
    pub proof fn lemma_positions(&self)
        requires
            self.wf(),
        ensures
            forall|i: int|
                0 <= i < self.spec_len() ==> self@.contains_key(#[trigger] self.id_at(i)),
            forall|i: int, j: int|
                0 <= i < j < self.spec_len() ==> #[trigger] self.id_at(i) != #[trigger] self.id_at(
                    j,
                ),
            forall|id: K::Id|
                #[trigger] self@.contains_key(id) ==> exists|i: int|
                    0 <= i < self.spec_len() && #[trigger] self.id_at(i) == id,
    {
        assert forall|i: int| 0 <= i < self.spec_len() implies self@.contains_key(
            #[trigger] self.id_at(i),
        ) by {
            self.lemma_at(i);
        }
        assert forall|i: int, j: int| 0 <= i < j < self.spec_len() implies #[trigger] self.id_at(i)
            != #[trigger] self.id_at(j) by {
            assert(self.ids()[i] == self.id_at(i));
            assert(self.ids()[j] == self.id_at(j));
        }
        assert forall|id: K::Id| #[trigger] self@.contains_key(id) implies exists|i: int|
            0 <= i < self.spec_len() && #[trigger] self.id_at(i) == id by {
            let i = self.ids().index_of(id);
            assert(self.ids()[i] == id);
            assert(self.id_at(i) == id);
        }
    }

    /// How many of the first `n` positions hold a value that satisfies `p`.
    pub open spec fn tally(&self, p: spec_fn(V) -> bool, n: nat) -> nat
        decreases n,
    {
        if n == 0 {
            0
        } else {
            self.tally(p, (n - 1) as nat) + if p(self@[self.id_at(n - 1)]) {
                1nat
            } else {
                0nat
            }
        }
    }

    /// Over all positions, that is the number of keys whose value satisfies `p`.
    pub proof fn lemma_tally(&self, p: spec_fn(V) -> bool)
        requires
            self.wf(),
        ensures
            self.tally(p, self.spec_len()) == count_where(self@, p),
            count_where(self@, p) <= self@.len(),
    {
        self.lemma_positions();
        self.lemma_len();
        let n = self.spec_len();
        let found = Set::new(
            |id: K::Id|
                exists|i: int| 0 <= i < n && self.id_at(i) == id && p(self@[self.id_at(i)]),
        );
        self.lemma_tally_upto(p, n);
        assert(found =~= self@.dom().filter(|k: K::Id| p(self@[k]))) by {
            assert forall|id: K::Id| found.contains(id) implies self@.contains_key(id) by {
                let i = choose|i: int|
                    0 <= i < n && self.id_at(i) == id && p(self@[self.id_at(i)]);
                self.lemma_at(i);
            }
        }
        self@.dom().lemma_len_filter(|k: K::Id| p(self@[k]));
    }

    /// A longer run of positions holds no fewer such values.
    pub proof fn lemma_tally_monotone(&self, p: spec_fn(V) -> bool, n: nat, m: nat)
        requires
            n <= m,
        ensures
            self.tally(p, n) <= self.tally(p, m),
        decreases m,
    {
        if n < m {
            self.lemma_tally_monotone(p, n, (m - 1) as nat);
        }
    }

    proof fn lemma_tally_upto(&self, p: spec_fn(V) -> bool, n: nat)
        requires
            self.wf(),
            n <= self.spec_len(),
        ensures
            ({
                let found = Set::new(
                    |id: K::Id|
                        exists|i: int| 0 <= i < n && self.id_at(i) == id && p(self@[self.id_at(i)]),
                );
                found.finite() && found.len() == self.tally(p, n)
            }),
        decreases n,
    {
        let found = Set::new(
            |id: K::Id|
                exists|i: int| 0 <= i < n && self.id_at(i) == id && p(self@[self.id_at(i)]),
        );
        if n == 0 {
            assert(found =~= Set::empty());
        } else {
            let m = (n - 1) as nat;
            self.lemma_tally_upto(p, m);
            self.lemma_positions();
            let before = Set::new(
                |id: K::Id|
                    exists|i: int| 0 <= i < m && self.id_at(i) == id && p(self@[self.id_at(i)]),
            );
            let last = self.id_at(m as int);
            if p(self@[last]) {
                assert(!before.contains(last));
                assert(found =~= before.insert(last)) by {
                    assert forall|id: K::Id| found.contains(id) <==> before.insert(last).contains(
                        id,
                    ) by {
                        if found.contains(id) {
                            let i = choose|i: int|
                                0 <= i < n && self.id_at(i) == id && p(self@[self.id_at(i)]);
                            if i < m {
                                assert(before.contains(id));
                            }
                        }
                        if before.contains(id) {
                            let i = choose|i: int|
                                0 <= i < m && self.id_at(i) == id && p(self@[self.id_at(i)]);
                            assert(0 <= i < n && self.id_at(i) == id);
                        }
                    }
                }
            } else {
                assert(found =~= before) by {
                    assert forall|id: K::Id| found.contains(id) <==> before.contains(id) by {
                        if found.contains(id) {
                            let i = choose|i: int|
                                0 <= i < n && self.id_at(i) == id && p(self@[self.id_at(i)]);
                            assert(i < m);
                        }
                        if before.contains(id) {
                            let i = choose|i: int|
                                0 <= i < m && self.id_at(i) == id && p(self@[self.id_at(i)]);
                            assert(0 <= i < n && self.id_at(i) == id);
                        }
                    }
                }
            }
        }
    }
}

/// What is put under a key is found there, and nowhere else, until something else is
/// put there or it is taken out.
pub proof fn law_tables_keep_what_is_put<K: TableKey, V>(
    inserting: &mut Table<K, V>,
    removing: &mut Table<K, V>,
    asked: &Table<K, V>,
    emptied: &Table<K, V>,
    key: K,
    other: &K,
    same: &K,
    value: V,
    found: Option<&V>,
    taken: Option<V>,
    elsewhere: Option<&V>,
    gone: Option<&V>,
)
    requires
        call_ensures(Table::<K, V>::insert, (inserting, key, value), ()),
        same.id() == key.id(),
        other.id() != key.id(),
        *asked == *final(inserting),
        call_ensures(Table::<K, V>::get, (asked, same), found),
        call_ensures(Table::<K, V>::get, (asked, other), elsewhere),
        *old(removing) == *final(inserting),
        call_ensures(Table::<K, V>::remove, (removing, same), taken),
        *emptied == *final(removing),
        call_ensures(Table::<K, V>::get, (emptied, same), gone),
    ensures
        found is Some && *(found->0) == value,
        elsewhere is Some <==> old(inserting)@.contains_key(other.id()),
        elsewhere is Some ==> *(elsewhere->0) == old(inserting)@[other.id()],
        taken is Some && taken->0 == value,
        gone is None,
{
}

} // verus!
