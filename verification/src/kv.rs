//! An in-memory key-value store with the two shapes the records need:
//! plain byte values under byte keys, and unordered sets of byte members.
//! It is the verified model of the persistence backend: the object layer is
//! proved against it, and a runner outside the library may mirror each
//! operation onto a networked store command for command.
use vstd::prelude::*;
use vstd::assert_by_contradiction;
use crate::bytes::{bytes_eq, starts_with, starts_with_spec, contains_bytes, contains_seq,
    clone_bytes};

verus! {

pub struct KvEntry {
    pub key: Vec<u8>,
    pub value: Vec<u8>,
    pub ttl: Option<u64>,
}

pub struct SetEntry {
    pub key: Vec<u8>,
    pub members: Vec<Vec<u8>>,
}

/// The store: a list of key-value entries with distinct keys, and a list
/// of keyed member sets with distinct keys and distinct members.
pub struct KvStore {
    pub entries: Vec<KvEntry>,
    pub sets: Vec<SetEntry>,
}

pub open spec fn kv_map_of(es: Seq<KvEntry>) -> Map<Seq<u8>, Seq<u8>>
    decreases es.len(),
{
    if es.len() == 0 {
        Map::empty()
    } else {
        kv_map_of(es.drop_last()).insert(es.last().key@, es.last().value@)
    }
}

/// The time-to-live notes of the plain entries, by key: `None` for an
/// entry stored without one.
pub open spec fn ttls_of(es: Seq<KvEntry>) -> Map<Seq<u8>, Option<u64>>
    decreases es.len(),
{
    if es.len() == 0 {
        Map::empty()
    } else {
        ttls_of(es.drop_last()).insert(es.last().key@, es.last().ttl)
    }
}

pub open spec fn sets_map_of(ss: Seq<SetEntry>) -> Map<Seq<u8>, Seq<Seq<u8>>>
    decreases ss.len(),
{
    if ss.len() == 0 {
        Map::empty()
    } else {
        sets_map_of(ss.drop_last()).insert(ss.last().key@, ss.last().members.deep_view())
    }
}

impl KvStore {
    /// The keys of the plain entries, in store order.
    pub open spec fn kv_keys(self) -> Seq<Seq<u8>> {
        Seq::new(self.entries@.len(), |i: int| self.entries@[i].key@)
    }

    /// The plain entries as a map from key to value.
    pub open spec fn kv_map(self) -> Map<Seq<u8>, Seq<u8>> {
        kv_map_of(self.entries@)
    }

    /// The member sets as a map from key to member list, in insertion
    /// order.
    pub open spec fn sets_map(self) -> Map<Seq<u8>, Seq<Seq<u8>>> {
        sets_map_of(self.sets@)
    }

    /// The time-to-live note of each stored key.
    pub open spec fn ttl_map(self) -> Map<Seq<u8>, Option<u64>> {
        ttls_of(self.entries@)
    }

    /// The members under a set key; a missing key reads as empty.
    pub open spec fn set_members(self, k: Seq<u8>) -> Seq<Seq<u8>> {
        if self.sets_map().contains_key(k) {
            self.sets_map()[k]
        } else {
            Seq::empty()
        }
    }

    /// Well-formedness: entry keys are distinct, set keys are distinct,
    /// and the members of each set are distinct.
    pub open spec fn wf(self) -> bool {
        (forall|i: int, j: int|
            0 <= i < j < self.entries@.len() ==> (#[trigger] self.entries@[i].key@) != (
            #[trigger] self.entries@[j].key@)) && (forall|i: int, j: int|
            0 <= i < j < self.sets@.len() ==> (#[trigger] self.sets@[i].key@) != (
            #[trigger] self.sets@[j].key@)) && (forall|i: int|
            0 <= i < self.sets@.len() ==> member_list_distinct(
                #[trigger] self.sets@[i].members.deep_view(),
            ))
    }
}

pub open spec fn member_list_distinct(ms: Seq<Seq<u8>>) -> bool {
    forall|i: int, j: int| 0 <= i < j < ms.len() ==> ms[i] != ms[j]
}

/// Keeping every member other than `m`.
pub open spec fn not_member_fn(m: Seq<u8>) -> spec_fn(Seq<u8>) -> bool {
    |x: Seq<u8>| x != m
}

/// Keys that start with `p`.
pub open spec fn prefix_fn(p: Seq<u8>) -> spec_fn(Seq<u8>) -> bool {
    |k: Seq<u8>| starts_with_spec(k, p)
}

/// Keys that start with `p` and contain `n` after it.
pub open spec fn prefix_contains_fn(p: Seq<u8>, n: Seq<u8>) -> spec_fn(Seq<u8>) -> bool {
    |k: Seq<u8>| starts_with_spec(k, p) && contains_seq(k.skip(p.len() as int), n)
}

// -------------------------------------------------------------------------
// association-list lemmas
// -------------------------------------------------------------------------
proof fn lemma_kv_absent(es: Seq<KvEntry>, k: Seq<u8>)
    requires
        forall|i: int| 0 <= i < es.len() ==> (#[trigger] es[i].key@) != k,
    ensures
        !kv_map_of(es).contains_key(k),
    decreases es.len(),
{
    if es.len() > 0 {
        lemma_kv_absent(es.drop_last(), k);
    }
}

proof fn lemma_kv_get(es: Seq<KvEntry>, i: int)
    requires
        forall|a: int, b: int|
            0 <= a < b < es.len() ==> (#[trigger] es[a].key@) != (#[trigger] es[b].key@),
        0 <= i < es.len(),
    ensures
        kv_map_of(es).contains_key(es[i].key@),
        kv_map_of(es)[es[i].key@] == es[i].value@,
    decreases es.len(),
{
    if i < es.len() - 1 {
        lemma_kv_get(es.drop_last(), i);
    }
}

proof fn lemma_kv_remove(es: Seq<KvEntry>, i: int)
    requires
        forall|a: int, b: int|
            0 <= a < b < es.len() ==> (#[trigger] es[a].key@) != (#[trigger] es[b].key@),
        0 <= i < es.len(),
    ensures
        kv_map_of(es.remove(i)) == kv_map_of(es).remove(es[i].key@),
    decreases es.len(),
{
    let k = es[i].key@;
    if i == es.len() - 1 {
        assert(es.remove(i) =~= es.drop_last());
        assert(forall|a: int|
            0 <= a < es.drop_last().len() ==> (#[trigger] es.drop_last()[a].key@) != k);
        lemma_kv_absent(es.drop_last(), k);
        assert(kv_map_of(es.drop_last()).remove(k) =~= kv_map_of(es.drop_last()));
        assert(kv_map_of(es).remove(k) =~= kv_map_of(es.drop_last()).insert(
            k,
            es.last().value@,
        ).remove(k));
        assert(kv_map_of(es.drop_last()).insert(k, es.last().value@).remove(k) =~= kv_map_of(
            es.drop_last(),
        ).remove(k));
    } else {
        assert(es.remove(i).drop_last() =~= es.drop_last().remove(i));
        assert(es.remove(i).last() == es.last());
        lemma_kv_remove(es.drop_last(), i);
        let lastk = es.last().key@;
        assert(lastk != k);
        assert(kv_map_of(es.remove(i)) == kv_map_of(es.drop_last().remove(i)).insert(
            lastk,
            es.last().value@,
        ));
        assert(kv_map_of(es.drop_last()).remove(k).insert(lastk, es.last().value@) =~= kv_map_of(
            es.drop_last(),
        ).insert(lastk, es.last().value@).remove(k));
    }
}

proof fn lemma_ttl_absent(es: Seq<KvEntry>, k: Seq<u8>)
    requires
        forall|i: int| 0 <= i < es.len() ==> (#[trigger] es[i].key@) != k,
    ensures
        !ttls_of(es).contains_key(k),
    decreases es.len(),
{
    if es.len() > 0 {
        lemma_ttl_absent(es.drop_last(), k);
    }
}

proof fn lemma_ttl_remove(es: Seq<KvEntry>, i: int)
    requires
        forall|a: int, b: int|
            0 <= a < b < es.len() ==> (#[trigger] es[a].key@) != (#[trigger] es[b].key@),
        0 <= i < es.len(),
    ensures
        ttls_of(es.remove(i)) == ttls_of(es).remove(es[i].key@),
    decreases es.len(),
{
    let k = es[i].key@;
    if i == es.len() - 1 {
        assert(es.remove(i) =~= es.drop_last());
        assert(forall|a: int|
            0 <= a < es.drop_last().len() ==> (#[trigger] es.drop_last()[a].key@) != k);
        lemma_ttl_absent(es.drop_last(), k);
        assert(ttls_of(es.drop_last()).remove(k) =~= ttls_of(es.drop_last()));
        assert(ttls_of(es).remove(k) =~= ttls_of(es.drop_last()).insert(k, es.last().ttl).remove(
            k,
        ));
        assert(ttls_of(es.drop_last()).insert(k, es.last().ttl).remove(k) =~= ttls_of(
            es.drop_last(),
        ).remove(k));
    } else {
        assert(es.remove(i).drop_last() =~= es.drop_last().remove(i));
        assert(es.remove(i).last() == es.last());
        lemma_ttl_remove(es.drop_last(), i);
        let lastk = es.last().key@;
        assert(lastk != k);
        assert(ttls_of(es.remove(i)) == ttls_of(es.drop_last().remove(i)).insert(
            lastk,
            es.last().ttl,
        ));
        assert(ttls_of(es.drop_last()).remove(k).insert(lastk, es.last().ttl) =~= ttls_of(
            es.drop_last(),
        ).insert(lastk, es.last().ttl).remove(k));
    }
}

proof fn lemma_sets_absent(ss: Seq<SetEntry>, k: Seq<u8>)
    requires
        forall|i: int| 0 <= i < ss.len() ==> (#[trigger] ss[i].key@) != k,
    ensures
        !sets_map_of(ss).contains_key(k),
    decreases ss.len(),
{
    if ss.len() > 0 {
        lemma_sets_absent(ss.drop_last(), k);
    }
}

proof fn lemma_sets_get(ss: Seq<SetEntry>, i: int)
    requires
        forall|a: int, b: int|
            0 <= a < b < ss.len() ==> (#[trigger] ss[a].key@) != (#[trigger] ss[b].key@),
        0 <= i < ss.len(),
    ensures
        sets_map_of(ss).contains_key(ss[i].key@),
        sets_map_of(ss)[ss[i].key@] == ss[i].members.deep_view(),
    decreases ss.len(),
{
    if i < ss.len() - 1 {
        lemma_sets_get(ss.drop_last(), i);
    }
}

proof fn lemma_sets_update(ss: Seq<SetEntry>, i: int, e: SetEntry)
    requires
        forall|a: int, b: int|
            0 <= a < b < ss.len() ==> (#[trigger] ss[a].key@) != (#[trigger] ss[b].key@),
        0 <= i < ss.len(),
        e.key@ == ss[i].key@,
    ensures
        sets_map_of(ss.update(i, e)) == sets_map_of(ss).insert(e.key@, e.members.deep_view()),
    decreases ss.len(),
{
    let k = e.key@;
    if i == ss.len() - 1 {
        assert(ss.update(i, e).drop_last() =~= ss.drop_last());
        assert(ss.update(i, e).last() == e);
        assert(kv_sets_insert_twice(sets_map_of(ss.drop_last()), k, ss.last().members.deep_view(), e.members.deep_view()));
    } else {
        assert(ss.update(i, e).drop_last() =~= ss.drop_last().update(i, e));
        assert(ss.update(i, e).last() == ss.last());
        lemma_sets_update(ss.drop_last(), i, e);
        let lastk = ss.last().key@;
        assert(lastk != k);
        assert(sets_map_of(ss.drop_last()).insert(k, e.members.deep_view()).insert(
            lastk,
            ss.last().members.deep_view(),
        ) =~= sets_map_of(ss.drop_last()).insert(lastk, ss.last().members.deep_view()).insert(
            k,
            e.members.deep_view(),
        ));
    }
}

spec fn kv_sets_insert_twice(
    m: Map<Seq<u8>, Seq<Seq<u8>>>,
    k: Seq<u8>,
    v1: Seq<Seq<u8>>,
    v2: Seq<Seq<u8>>,
) -> bool {
    m.insert(k, v1).insert(k, v2) =~= m.insert(k, v2)
}

// -------------------------------------------------------------------------
// operations
// -------------------------------------------------------------------------
impl KvStore {
    /// Every stored key is in the map's domain.
    pub proof fn lemma_keys_in_dom(self)
        requires
            self.wf(),
        ensures
            forall|i: int|
                0 <= i < self.kv_keys().len() ==> self.kv_map().contains_key(
                    #[trigger] self.kv_keys()[i],
                ),
    {
        assert forall|i: int|
            0 <= i < self.kv_keys().len() implies self.kv_map().contains_key(
            #[trigger] self.kv_keys()[i],
        ) by {
            lemma_kv_get(self.entries@, i);
        }
    }

    /// An empty store.
    pub fn new() -> (r: KvStore)
        ensures
            r.wf(),
            r.kv_map() == Map::<Seq<u8>, Seq<u8>>::empty(),
            r.sets_map() == Map::<Seq<u8>, Seq<Seq<u8>>>::empty(),
            r.kv_keys() == Seq::<Seq<u8>>::empty(),
    {
        let r = KvStore { entries: Vec::new(), sets: Vec::new() };
        proof {
            assert(r.kv_keys() =~= Seq::<Seq<u8>>::empty());
        }
        r
    }

    fn find_entry(&self, key: &Vec<u8>) -> (r: Option<usize>)
        ensures
            match r {
                Some(i) => i < self.entries@.len() && self.entries@[i as int].key@ == key@,
                None => forall|i: int|
                    0 <= i < self.entries@.len() ==> (#[trigger] self.entries@[i].key@) != key@,
            },
    {
        let mut i: usize = 0;
        while i < self.entries.len()
            invariant
                i <= self.entries@.len(),
                forall|k: int| 0 <= k < i ==> (#[trigger] self.entries@[k].key@) != key@,
            decreases self.entries@.len() - i,
        {
            if bytes_eq(&self.entries[i].key, key) {
                return Some(i);
            }
            i = i + 1;
        }
        None
    }

    fn find_set(&self, key: &Vec<u8>) -> (r: Option<usize>)
        ensures
            match r {
                Some(i) => i < self.sets@.len() && self.sets@[i as int].key@ == key@,
                None => forall|i: int|
                    0 <= i < self.sets@.len() ==> (#[trigger] self.sets@[i].key@) != key@,
            },
    {
        let mut i: usize = 0;
        while i < self.sets.len()
            invariant
                i <= self.sets@.len(),
                forall|k: int| 0 <= k < i ==> (#[trigger] self.sets@[k].key@) != key@,
            decreases self.sets@.len() - i,
        {
            if bytes_eq(&self.sets[i].key, key) {
                return Some(i);
            }
            i = i + 1;
        }
        None
    }

    /// Stores `value` under `key`, replacing any prior value, with the
    /// given time-to-live note.
    pub fn set_value_ttl(&mut self, key: Vec<u8>, value: Vec<u8>, ttl: Option<u64>)
        requires
            old(self).wf(),
        ensures
            final(self).wf(),
            final(self).kv_map() == old(self).kv_map().insert(key@, value@),
            final(self).ttl_map() == old(self).ttl_map().insert(key@, ttl),
            final(self).sets@ == old(self).sets@,
            !old(self).kv_map().contains_key(key@) ==> final(self).kv_keys() == old(
                self,
            ).kv_keys().push(key@),
            old(self).kv_map().contains_key(key@) ==> final(self).kv_keys().to_multiset() == old(
                self,
            ).kv_keys().to_multiset(),
    {
        let ghost oldes = self.entries@;
        match self.find_entry(&key) {
            Some(i) => {
                let e = self.entries.remove(i);
                proof {
                    lemma_kv_remove(oldes, i as int);
                    lemma_kv_get(oldes, i as int);
                    lemma_ttl_remove(oldes, i as int);
                }
                let ghost mides = self.entries@;
                self.entries.push(KvEntry { key, value, ttl });
                proof {
                    let k = oldes[i as int].key@;
                    assert(self.entries@.drop_last() =~= mides);
                    assert(kv_map_of(self.entries@) == kv_map_of(mides).insert(k, value@));
                    assert(kv_map_of(mides).insert(k, value@) =~= kv_map_of(oldes).insert(
                        k,
                        value@,
                    ));
                    assert(ttls_of(self.entries@) == ttls_of(mides).insert(k, ttl));
                    assert(ttls_of(mides).insert(k, ttl) =~= ttls_of(oldes).insert(k, ttl));
                    assert(forall|a: int|
                        0 <= a < mides.len() ==> (#[trigger] mides[a].key@) != k);
                    assert(final(self).kv_keys() =~= Seq::new(
                        mides.len(),
                        |t: int| mides[t].key@,
                    ).push(k));
                    lemma_keys_multiset(oldes, i as int, self.entries@, self.entries@.last());
                }
            },
            None => {
                proof {
                    lemma_kv_absent(oldes, key@);
                }
                self.entries.push(KvEntry { key, value, ttl });
                proof {
                    assert(self.entries@.drop_last() =~= oldes);
                    assert(final(self).kv_keys() =~= Seq::new(
                        oldes.len(),
                        |t: int| oldes[t].key@,
                    ).push(self.entries@.last().key@));
                }
            },
        }
    }

    /// Stores `value` under `key`, replacing any prior value and clearing
    /// any time-to-live note.
    pub fn set_value(&mut self, key: Vec<u8>, value: Vec<u8>)
        requires
            old(self).wf(),
        ensures
            final(self).wf(),
            final(self).kv_map() == old(self).kv_map().insert(key@, value@),
            final(self).ttl_map() == old(self).ttl_map().insert(key@, None),
            final(self).sets@ == old(self).sets@,
            !old(self).kv_map().contains_key(key@) ==> final(self).kv_keys() == old(
                self,
            ).kv_keys().push(key@),
            old(self).kv_map().contains_key(key@) ==> final(self).kv_keys().to_multiset() == old(
                self,
            ).kv_keys().to_multiset(),
    {
        self.set_value_ttl(key, value, None)
    }

    /// The value under `key`, if any.
    pub fn get_value(&self, key: &Vec<u8>) -> (r: Option<Vec<u8>>)
        requires
            self.wf(),
        ensures
            match r {
                Some(v) => self.kv_map().contains_key(key@) && v@ == self.kv_map()[key@],
                None => !self.kv_map().contains_key(key@),
            },
    {
        match self.find_entry(key) {
            Some(i) => {
                proof {
                    lemma_kv_get(self.entries@, i as int);
                }
                Some(clone_bytes(&self.entries[i].value))
            },
            None => {
                proof {
                    lemma_kv_absent(self.entries@, key@);
                }
                None
            },
        }
    }

    /// All keys that start with `prefix`, in store order.
    pub fn keys_with_prefix(&self, prefix: &Vec<u8>) -> (r: Vec<Vec<u8>>)
        ensures
            r.deep_view() == self.kv_keys().filter(prefix_fn(prefix@)),
    {
        let ghost pred = prefix_fn(prefix@);
        let mut out: Vec<Vec<u8>> = Vec::new();
        let mut i: usize = 0;
        while i < self.entries.len()
            invariant
                i <= self.entries@.len(),
                pred == prefix_fn(prefix@),
                out.deep_view() == self.kv_keys().subrange(0, i as int).filter(pred),
            decreases self.entries@.len() - i,
        {
            proof {
                let ks = self.kv_keys();
                assert(ks[i as int] == self.entries@[i as int].key@);
                assert(ks.subrange(0, i + 1).drop_last() =~= ks.subrange(0, i as int));
                assert(ks.subrange(0, i + 1).last() == ks[i as int]);
                reveal(Seq::filter);
            }
            proof {
                assert(pred(self.entries@[i as int].key@) == starts_with_spec(
                    self.entries@[i as int].key@,
                    prefix@,
                ));
            }
            if starts_with(&self.entries[i].key, prefix) {
                out.push(clone_bytes(&self.entries[i].key));
                proof {
                    assert(out.deep_view() =~~= self.kv_keys().subrange(0, i + 1).filter(pred));
                }
            } else {
                proof {
                    assert(out.deep_view() =~~= self.kv_keys().subrange(0, i + 1).filter(pred));
                }
            }
            i = i + 1;
        }
        proof {
            assert(self.kv_keys().subrange(0, self.kv_keys().len() as int) =~= self.kv_keys());
        }
        out
    }

    /// All keys that start with `prefix` and contain `needle` after it.
    pub fn keys_with_prefix_containing(&self, prefix: &Vec<u8>, needle: &Vec<u8>) -> (r: Vec<
        Vec<u8>,
    >)
        ensures
            r.deep_view() == self.kv_keys().filter(prefix_contains_fn(prefix@, needle@)),
    {
        let ghost pred = prefix_contains_fn(prefix@, needle@);
        let mut out: Vec<Vec<u8>> = Vec::new();
        let mut i: usize = 0;
        while i < self.entries.len()
            invariant
                i <= self.entries@.len(),
                pred == prefix_contains_fn(prefix@, needle@),
                out.deep_view() == self.kv_keys().subrange(0, i as int).filter(pred),
            decreases self.entries@.len() - i,
        {
            proof {
                let ks = self.kv_keys();
                assert(ks[i as int] == self.entries@[i as int].key@);
                assert(ks.subrange(0, i + 1).drop_last() =~= ks.subrange(0, i as int));
                assert(ks.subrange(0, i + 1).last() == ks[i as int]);
                reveal(Seq::filter);
            }
            proof {
                let kk = self.entries@[i as int].key@;
                assert(pred(kk) == (starts_with_spec(kk, prefix@) && contains_seq(
                    kk.skip(prefix@.len() as int),
                    needle@,
                )));
            }
            let key = &self.entries[i].key;
            let hit = if starts_with(key, prefix) {
                let suffix = skip_bytes(key, prefix.len());
                contains_bytes(&suffix, needle)
            } else {
                false
            };
            if hit {
                out.push(clone_bytes(key));
                proof {
                    assert(out.deep_view() =~~= self.kv_keys().subrange(0, i + 1).filter(pred));
                }
            } else {
                proof {
                    assert(out.deep_view() =~~= self.kv_keys().subrange(0, i + 1).filter(pred));
                }
            }
            i = i + 1;
        }
        proof {
            assert(self.kv_keys().subrange(0, self.kv_keys().len() as int) =~= self.kv_keys());
        }
        out
    }

    /// Adds `member` to the set under `key`; members are kept unique.
    pub fn sadd(&mut self, key: Vec<u8>, member: Vec<u8>)
        requires
            old(self).wf(),
        ensures
            final(self).wf(),
            final(self).entries@ == old(self).entries@,
            final(self).sets_map() == old(self).sets_map().insert(
                key@,
                if old(self).set_members(key@).contains(member@) {
                    old(self).set_members(key@)
                } else {
                    old(self).set_members(key@).push(member@)
                },
            ),
    {
        let ghost oldss = self.sets@;
        match self.find_set(&key) {
            Some(i) => {
                proof {
                    lemma_sets_get(oldss, i as int);
                }
                if contains_member(&self.sets[i].members, &member) {
                    proof {
                        lemma_sets_update_self(oldss, i as int);
                    }
                } else {
                    let ghost oldmem = self.sets@[i as int].members.deep_view();
                    let e = self.sets.remove(i);
                    let SetEntry { key: ekey, members: mut ms } = e;
                    ms.push(member);
                    let ghost newe_members = ms.deep_view();
                    let newe = SetEntry { key: ekey, members: ms };
                    self.sets.insert(i, newe);
                    proof {
                        assert(newe_members =~~= oldmem.push(member@));
                        assert(self.sets@ =~= oldss.update(i as int, self.sets@[i as int]));
                        lemma_sets_update(oldss, i as int, self.sets@[i as int]);
                        assert(member_list_distinct(newe_members));
                        assert(self.sets@[i as int].members.deep_view() == newe_members);
                        assert forall|a: int|
                            0 <= a < self.sets@.len() implies member_list_distinct(
                            #[trigger] self.sets@[a].members.deep_view(),
                        ) by {
                            if a != i {
                                assert(self.sets@[a] == oldss[a]);
                            }
                        }
                        assert forall|a: int, b: int|
                            0 <= a < b < self.sets@.len() implies (
                        #[trigger] self.sets@[a].key@) != (#[trigger] self.sets@[b].key@) by {
                            assert(self.sets@[a].key@ == oldss[a].key@);
                            assert(self.sets@[b].key@ == oldss[b].key@);
                        }
                    }
                }
            },
            None => {
                proof {
                    lemma_sets_absent(oldss, key@);
                }
                let mut ms: Vec<Vec<u8>> = Vec::new();
                ms.push(member);
                let ghost msdv = ms.deep_view();
                self.sets.push(SetEntry { key, members: ms });
                proof {
                    assert(self.sets@.drop_last() =~= oldss);
                    assert(msdv =~~= Seq::<Seq<u8>>::empty().push(self.sets@.last().members@[0]@));
                }
            },
        }
    }

    /// Removes `member` from the set under `key`.
    pub fn srem(&mut self, key: Vec<u8>, member: Vec<u8>)
        requires
            old(self).wf(),
        ensures
            final(self).wf(),
            final(self).entries@ == old(self).entries@,
            final(self).sets_map() == if old(self).sets_map().contains_key(key@) {
                old(self).sets_map().insert(
                    key@,
                    old(self).set_members(key@).filter(not_member_fn(member@)),
                )
            } else {
                old(self).sets_map()
            },
    {
        let ghost oldss = self.sets@;
        match self.find_set(&key) {
            Some(i) => {
                proof {
                    lemma_sets_get(oldss, i as int);
                }
                let ghost oldmem = self.sets@[i as int].members.deep_view();
                let e = self.sets.remove(i);
                let SetEntry { key: ekey, members: ms } = e;
                let kept = filter_members(&ms, &member);
                let newe = SetEntry { key: ekey, members: kept };
                self.sets.insert(i, newe);
                proof {
                    assert(self.sets@ =~= oldss.update(i as int, self.sets@[i as int]));
                    lemma_sets_update(oldss, i as int, self.sets@[i as int]);
                    lemma_filter_distinct(oldmem, member@);
                    assert(self.sets@[i as int].members.deep_view() == oldmem.filter(
                        not_member_fn(member@),
                    ));
                    assert forall|a: int|
                        0 <= a < self.sets@.len() implies member_list_distinct(
                        #[trigger] self.sets@[a].members.deep_view(),
                    ) by {
                        if a != i {
                            assert(self.sets@[a] == oldss[a]);
                        } else {
                            assert(self.sets@[a].members.deep_view() == oldmem.filter(
                                not_member_fn(member@),
                            ));
                            assert(member_list_distinct(oldmem.filter(not_member_fn(member@))));
                        }
                    }
                    assert forall|a: int, b: int|
                        0 <= a < b < self.sets@.len() implies (#[trigger] self.sets@[a].key@) != (
                    #[trigger] self.sets@[b].key@) by {
                        assert(self.sets@[a].key@ == oldss[a].key@);
                        assert(self.sets@[b].key@ == oldss[b].key@);
                    }
                }
            },
            None => {
                proof {
                    lemma_sets_absent(oldss, key@);
                }
            },
        }
    }

    /// The members of the set under `key`, in insertion order; a missing
    /// key reads as empty.
    pub fn smembers(&self, key: &Vec<u8>) -> (r: Vec<Vec<u8>>)
        requires
            self.wf(),
        ensures
            r.deep_view() == self.set_members(key@),
            member_list_distinct(r.deep_view()),
    {
        match self.find_set(key) {
            Some(i) => {
                proof {
                    lemma_sets_get(self.sets@, i as int);
                }
                clone_members(&self.sets[i].members)
            },
            None => {
                proof {
                    lemma_sets_absent(self.sets@, key@);
                }
                let r: Vec<Vec<u8>> = Vec::new();
                proof {
                    assert(r.deep_view() =~= Seq::<Seq<u8>>::empty());
                }
                r
            },
        }
    }
}

proof fn lemma_sets_update_self(ss: Seq<SetEntry>, i: int)
    requires
        forall|a: int, b: int|
            0 <= a < b < ss.len() ==> (#[trigger] ss[a].key@) != (#[trigger] ss[b].key@),
        0 <= i < ss.len(),
    ensures
        sets_map_of(ss) == sets_map_of(ss).insert(ss[i].key@, ss[i].members.deep_view()),
{
    lemma_sets_get(ss, i);
    assert(sets_map_of(ss) =~= sets_map_of(ss).insert(ss[i].key@, ss[i].members.deep_view()));
}

proof fn lemma_keys_multiset(oldes: Seq<KvEntry>, i: int, newes: Seq<KvEntry>, e: KvEntry)
    requires
        0 <= i < oldes.len(),
        e.key@ == oldes[i].key@,
        newes =~= oldes.remove(i).push(e),
    ensures
        Seq::new(newes.len(), |t: int| newes[t].key@).to_multiset() == Seq::new(
            oldes.len(),
            |t: int| oldes[t].key@,
        ).to_multiset(),
{
    let oldkeys = Seq::new(oldes.len(), |t: int| oldes[t].key@);
    let newkeys = Seq::new(newes.len(), |t: int| newes[t].key@);
    assert(newkeys =~= oldkeys.remove(i).push(oldkeys[i]));
    oldkeys.to_multiset_ensures();
    oldkeys.remove(i).to_multiset_ensures();
    assert(oldkeys.remove(i).push(oldkeys[i]).to_multiset() =~= oldkeys.remove(
        i,
    ).to_multiset().insert(oldkeys[i]));
    assert(oldkeys.remove(i).to_multiset() =~= oldkeys.to_multiset().remove(oldkeys[i]));
    assert(oldkeys.contains(oldkeys[i]));
    assert(oldkeys.to_multiset().count(oldkeys[i]) > 0);
    assert(oldkeys.to_multiset().remove(oldkeys[i]).insert(oldkeys[i]) =~= oldkeys.to_multiset());
}

fn contains_member(ms: &Vec<Vec<u8>>, m: &Vec<u8>) -> (r: bool)
    ensures
        r == ms.deep_view().contains(m@),
{
    let mut i: usize = 0;
    while i < ms.len()
        invariant
            i <= ms@.len(),
            forall|k: int| 0 <= k < i ==> (#[trigger] ms.deep_view()[k]) != m@,
        decreases ms@.len() - i,
    {
        proof {
            assert(ms.deep_view()[i as int] == ms@[i as int]@);
        }
        if bytes_eq(&ms[i], m) {
            proof {
                assert(ms.deep_view()[i as int] == m@);
            }
            return true;
        }
        i = i + 1;
    }
    false
}

fn filter_members(ms: &Vec<Vec<u8>>, m: &Vec<u8>) -> (r: Vec<Vec<u8>>)
    ensures
        r.deep_view() == ms.deep_view().filter(not_member_fn(m@)),
{
    let ghost pred = not_member_fn(m@);
    let mut out: Vec<Vec<u8>> = Vec::new();
    let mut i: usize = 0;
    while i < ms.len()
        invariant
            i <= ms@.len(),
            pred == not_member_fn(m@),
            out.deep_view() == ms.deep_view().subrange(0, i as int).filter(pred),
        decreases ms@.len() - i,
    {
        proof {
            let dv = ms.deep_view();
            assert(dv[i as int] == ms@[i as int]@);
            assert(dv.subrange(0, i + 1).drop_last() =~= dv.subrange(0, i as int));
            assert(dv.subrange(0, i + 1).last() == dv[i as int]);
            reveal(Seq::filter);
        }
        proof {
            assert(pred(ms.deep_view()[i as int]) == (ms.deep_view()[i as int] != m@));
        }
        if !bytes_eq(&ms[i], m) {
            out.push(clone_bytes(&ms[i]));
            proof {
                assert(out.deep_view() =~~= ms.deep_view().subrange(0, i + 1).filter(pred));
            }
        } else {
            proof {
                assert(out.deep_view() =~~= ms.deep_view().subrange(0, i + 1).filter(pred));
            }
        }
        i = i + 1;
    }
    proof {
        assert(ms.deep_view().subrange(0, ms.deep_view().len() as int) =~= ms.deep_view());
    }
    out
}

proof fn lemma_filter_subset(ms: Seq<Seq<u8>>, pred: spec_fn(Seq<u8>) -> bool, x: Seq<u8>)
    requires
        ms.filter(pred).contains(x),
    ensures
        ms.contains(x),
    decreases ms.len(),
{
    reveal(Seq::filter);
    if ms.len() > 0 {
        if pred(ms.last()) && x == ms.last() {
            assert(ms[ms.len() - 1] == x);
        } else {
            let f = ms.filter(pred);
            let fd = ms.drop_last().filter(pred);
            let j = choose|j: int| 0 <= j < f.len() && f[j] == x;
            if pred(ms.last()) {
                assert(f == fd.push(ms.last()));
                assert(j < f.len() - 1);
                assert(fd[j] == x);
            } else {
                assert(f == fd);
            }
            assert(fd.contains(x));
            lemma_filter_subset(ms.drop_last(), pred, x);
            let t = choose|t: int| 0 <= t < ms.drop_last().len() && ms.drop_last()[t] == x;
            assert(ms[t] == x);
        }
    }
}

proof fn lemma_filter_distinct(ms: Seq<Seq<u8>>, m: Seq<u8>)
    requires
        member_list_distinct(ms),
    ensures
        member_list_distinct(ms.filter(not_member_fn(m))),
    decreases ms.len(),
{
    reveal(Seq::filter);
    let pred = not_member_fn(m);
    if ms.len() > 0 {
        assert(forall|a: int, b: int|
            0 <= a < b < ms.drop_last().len() ==> (#[trigger] ms.drop_last()[a]) != (
            #[trigger] ms.drop_last()[b]));
        lemma_filter_distinct(ms.drop_last(), m);
        let f = ms.filter(pred);
        let fd = ms.drop_last().filter(pred);
        assert(pred(ms.last()) == (ms.last() != m));
        if ms.last() != m {
            assert(f == fd.push(ms.last()));
            assert_by_contradiction!(!fd.contains(ms.last()), {
                lemma_filter_subset(ms.drop_last(), pred, ms.last());
                let t = choose|t: int|
                    0 <= t < ms.drop_last().len() && ms.drop_last()[t] == ms.last();
                assert(ms[t] == ms[ms.len() - 1]);
            });
            assert forall|a: int, b: int| 0 <= a < b < f.len() implies f[a] != f[b] by {
                if b < f.len() - 1 {
                    assert(fd[a] != fd[b]);
                } else {
                    assert(f[a] == fd[a]);
                    assert(fd.contains(fd[a]));
                }
            }
        }
    }
}

fn clone_members(ms: &Vec<Vec<u8>>) -> (r: Vec<Vec<u8>>)
    ensures
        r.deep_view() == ms.deep_view(),
{
    let mut out: Vec<Vec<u8>> = Vec::new();
    let mut i: usize = 0;
    while i < ms.len()
        invariant
            i <= ms@.len(),
            out@.len() == i,
            out.deep_view() == ms.deep_view().subrange(0, i as int),
        decreases ms@.len() - i,
    {
        proof {
            assert(ms.deep_view()[i as int] == ms@[i as int]@);
        }
        out.push(clone_bytes(&ms[i]));
        proof {
            assert(out.deep_view() =~~= ms.deep_view().subrange(0, i + 1));
        }
        i = i + 1;
    }
    proof {
        assert(ms.deep_view().subrange(0, ms.deep_view().len() as int) =~= ms.deep_view());
    }
    out
}

/// The bytes of `s` from position `n` on.
pub fn skip_bytes(s: &Vec<u8>, n: usize) -> (r: Vec<u8>)
    requires
        n <= s@.len(),
    ensures
        r@ == s@.skip(n as int),
{
    let mut out: Vec<u8> = Vec::new();
    let mut i: usize = n;
    while i < s.len()
        invariant
            n <= i <= s@.len(),
            out@ =~= s@.subrange(n as int, i as int),
        decreases s@.len() - i,
    {
        out.push(s[i]);
        i = i + 1;
    }
    proof {
        assert(out@ =~= s@.skip(n as int));
    }
    out
}

} // verus!
