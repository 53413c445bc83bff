//! The local decision enforcer: the materialized policy set, the grouping
//! closure, and a decision cache with narrow invalidation.

use vstd::prelude::*;

use crate::matcher::evaluate;
use crate::matcher::find_index;
use crate::matcher::load_group_policies;
use crate::model::EnforceAct;
use crate::model::Grant;
use crate::policy::decision;
use crate::policy::groupings_exact;
use crate::policy::key_matches;
use crate::policy::lemma_lookup_first;
use crate::policy::lemma_lookup_none_iff;
use crate::policy::lemma_lookup_some_index;
use crate::policy::lookup;
use crate::policy::unique_keys;
use crate::policy::GroupingEntry;
use crate::policy::ObjectType;
use crate::policy::PolicyEntry;
use crate::policy::SubjectType;

verus! {

/// One cached decision, keyed by the full request.
#[derive(Clone, Copy, Debug, PartialEq, Eq, Structural)]
pub struct CacheEntry {
    pub sub: SubjectType,
    pub obj: ObjectType,
    pub act: EnforceAct,
    pub decision: bool,
}

/// Every cached decision equals a fresh evaluation against the
/// materialized policy set.
pub open spec fn cache_ok(c: Seq<CacheEntry>, p: Seq<PolicyEntry>) -> bool {
    forall|i: int|
        0 <= i < c.len() ==> (#[trigger] c[i]).decision == decision(p, c[i].sub, c[i].obj, c[i].act)
}

/// The in-process evaluator: materialized policies and groupings, a
/// decision cache, and the generation the state was last applied at.
#[derive(Clone, Debug)]
pub struct Enforcer {
    pub policies: Vec<PolicyEntry>,
    pub groupings: Vec<GroupingEntry>,
    pub cache: Vec<CacheEntry>,
    pub generation: u64,
}

impl Enforcer {
    /// Well-formed: unique policy keys, a complete grouping closure, and a
    /// cache that agrees with the materialized set.
    pub open spec fn wf(self) -> bool {
        &&& unique_keys(self.policies@)
        &&& groupings_exact(self.groupings@)
        &&& cache_ok(self.cache@, self.policies@)
    }

    /// The grant materialized for a subject/object pair.
    pub open spec fn grant_of(self, sub: SubjectType, obj: ObjectType) -> Option<Grant> {
        lookup(self.policies@, sub, obj)
    }

    /// A fresh enforcer: no policies, an empty cache, generation zero, and
    /// the grouping closure regenerated from the implication tables.
    pub fn new() -> (e: Enforcer)
        ensures
            e.wf(),
            e.policies@.len() == 0,
            e.cache@.len() == 0,
            e.generation == 0,
    {
        Enforcer {
            policies: Vec::new(),
            groupings: load_group_policies(),
            cache: Vec::new(),
            generation: 0,
        }
    }

    /// Answers one request from the cache, or evaluates and caches it. The
    /// answer always equals a fresh evaluation of the materialized set.
    pub fn decide(&mut self, sub: &SubjectType, obj: &ObjectType, act: &EnforceAct) -> (b: bool)
        requires
            old(self).wf(),
        ensures
            final(self).wf(),
            b == decision(old(self).policies@, *sub, *obj, *act),
            final(self).policies@ == old(self).policies@,
            final(self).groupings@ == old(self).groupings@,
            final(self).generation == old(self).generation,
    {
        match cache_find(&self.cache, sub, obj, act) {
            Some(b) => b,
            None => {
                let b = evaluate(&self.policies, &self.groupings, sub, obj, act);
                let ghost c0 = self.cache@;
                self.cache.push(
                    CacheEntry { sub: *sub, obj: *obj, act: *act, decision: b },
                );
                proof {
                    assert(forall|i: int| 0 <= i < c0.len() ==> #[trigger] self.cache@[i] == c0[i]);
                }
                b
            },
        }
    }

    /// Applies one upsert to the materialized set, invalidates exactly the
    /// cached decisions of the touched pair, and advances the generation.
    pub fn apply_update(&mut self, sub: SubjectType, obj: ObjectType, grant: Grant)
        requires
            old(self).wf(),
            old(self).generation < u64::MAX,
        ensures
            final(self).wf(),
            forall|s: SubjectType, o: ObjectType|
                #[trigger] final(self).grant_of(s, o) == if s == sub && o == obj {
                    Some(grant)
                } else {
                    old(self).grant_of(s, o)
                },
            final(self).generation == old(self).generation + 1,
            final(self).groupings@ == old(self).groupings@,
    {
        let entry = PolicyEntry { sub, obj, grant };
        let ghost p0 = self.policies@;
        let idx = find_index(&self.policies, &sub, &obj);
        match idx {
            Some(i) => {
                self.policies.set(i, entry);
                proof {
                    let p1 = self.policies@;
                    assert forall|s: SubjectType, o: ObjectType|
                        #[trigger] lookup(p1, s, o) == if s == sub && o == obj {
                            Some(grant)
                        } else {
                            lookup(p0, s, o)
                        } by {
                        if s == sub && o == obj {
                            lemma_lookup_first(p1, i as int, s, o);
                        } else {
                            crate::policy::lemma_lookup_agree(p0, p1, s, o);
                        }
                    }
                    assert(forall|k: int|
                        0 <= k < p1.len() ==> (#[trigger] p1[k]).sub == p0[k].sub && p1[k].obj
                            == p0[k].obj);
                    assert(unique_keys(p1));
                }
            },
            None => {
                self.policies.push(entry);
                proof {
                    let p1 = self.policies@;
                    assert(forall|j: int| 0 <= j < p0.len() ==> #[trigger] p1[j] == p0[j]);
                    assert forall|s: SubjectType, o: ObjectType|
                        #[trigger] lookup(p1, s, o) == if s == sub && o == obj {
                            Some(grant)
                        } else {
                            lookup(p0, s, o)
                        } by {
                        if s == sub && o == obj {
                            lemma_lookup_first(p1, p0.len() as int, s, o);
                        } else {
                            if lookup(p0, s, o) == Option::<Grant>::None {
                                lemma_lookup_none_iff(p0, s, o);
                                lemma_lookup_none_iff(p1, s, o);
                            } else {
                                lemma_lookup_some_index(p0, s, o);
                                let k = choose|k: int|
                                    0 <= k < p0.len() && key_matches(#[trigger] p0[k], s, o)
                                        && lookup(p0, s, o) == Some(p0[k].grant) && (forall|j: int|
                                        0 <= j < k ==> !key_matches(#[trigger] p0[j], s, o));
                                lemma_lookup_first(p1, k, s, o);
                            }
                        }
                    }
                    assert(p1[p0.len() as int] == entry);
                    assert(unique_keys(p1));
                }
            },
        }
        self.invalidate_pair(sub, obj);
        self.generation = self.generation + 1;
        proof {
            let p0 = old(self).policies@;
            let p1 = self.policies@;
            assert forall|k: int|
                0 <= k < self.cache@.len() implies (#[trigger] self.cache@[k]).decision == decision(
                p1,
                self.cache@[k].sub,
                self.cache@[k].obj,
                self.cache@[k].act,
            ) by {
                let e = self.cache@[k];
                assert(old(self).cache@.contains(e));
                let j = choose|j: int|
                    0 <= j < old(self).cache@.len() && old(self).cache@[j] == e;
                assert(old(self).cache@[j].decision == decision(p0, e.sub, e.obj, e.act));
                assert(lookup(p1, e.sub, e.obj) == lookup(p0, e.sub, e.obj));
            }
        }
    }

    /// Applies one removal. Removing an absent pair is a no-op that still
    /// counts as a successful mutation.
    pub fn apply_remove(&mut self, sub: SubjectType, obj: ObjectType)
        requires
            old(self).wf(),
            old(self).generation < u64::MAX,
        ensures
            final(self).wf(),
            forall|s: SubjectType, o: ObjectType|
                #[trigger] final(self).grant_of(s, o) == if s == sub && o == obj {
                    Option::<Grant>::None
                } else {
                    old(self).grant_of(s, o)
                },
            final(self).generation == old(self).generation + 1,
            final(self).groupings@ == old(self).groupings@,
    {
        let ghost p0 = self.policies@;
        let idx = find_index(&self.policies, &sub, &obj);
        match idx {
            Some(i) => {
                self.policies.remove(i);
                proof {
                    let p1 = self.policies@;
                    assert forall|s: SubjectType, o: ObjectType|
                        #[trigger] lookup(p1, s, o) == if s == sub && o == obj {
                            Option::<Grant>::None
                        } else {
                            lookup(p0, s, o)
                        } by {
                        if s == sub && o == obj {
                            assert forall|j: int| 0 <= j < p1.len() implies !key_matches(
                                #[trigger] p1[j],
                                s,
                                o,
                            ) by {
                                if j < i {
                                    assert(p1[j] == p0[j]);
                                } else {
                                    assert(p1[j] == p0[j + 1]);
                                }
                            }
                            lemma_lookup_none_iff(p1, s, o);
                        } else {
                            if lookup(p0, s, o) == Option::<Grant>::None {
                                lemma_lookup_none_iff(p0, s, o);
                                assert forall|j: int| 0 <= j < p1.len() implies !key_matches(
                                    #[trigger] p1[j],
                                    s,
                                    o,
                                ) by {
                                    if j < i {
                                        assert(p1[j] == p0[j]);
                                    } else {
                                        assert(p1[j] == p0[j + 1]);
                                    }
                                }
                                lemma_lookup_none_iff(p1, s, o);
                            } else {
                                lemma_lookup_some_index(p0, s, o);
                                let k = choose|k: int|
                                    0 <= k < p0.len() && key_matches(#[trigger] p0[k], s, o)
                                        && lookup(p0, s, o) == Some(p0[k].grant) && (forall|j: int|
                                        0 <= j < k ==> !key_matches(#[trigger] p0[j], s, o));
                                if k < i {
                                    assert(forall|j: int| 0 <= j < k ==> #[trigger] p1[j] == p0[j]);
                                    assert(p1[k] == p0[k]);
                                    lemma_lookup_first(p1, k, s, o);
                                } else {
                                    assert(k != i);
                                    assert(p1[k - 1] == p0[k]);
                                    assert forall|j: int| 0 <= j < k - 1 implies !key_matches(
                                        #[trigger] p1[j],
                                        s,
                                        o,
                                    ) by {
                                        if j < i {
                                            assert(p1[j] == p0[j]);
                                        } else {
                                            assert(p1[j] == p0[j + 1]);
                                        }
                                    }
                                    lemma_lookup_first(p1, k - 1, s, o);
                                }
                            }
                        }
                    }
                    assert forall|a: int, b: int| 0 <= a < b < p1.len() implies !(#[trigger] p1[a].sub
                        == #[trigger] p1[b].sub && p1[a].obj == p1[b].obj) by {
                        let a2: int = if a < i { a } else { a + 1 };
                        let b2: int = if b < i { b } else { b + 1 };
                        assert(p1[a] == p0[a2]);
                        assert(p1[b] == p0[b2]);
                    }
                    assert(unique_keys(p1));
                }
            },
            None => {
                proof {
                    lemma_lookup_none_iff(p0, sub, obj);
                }
            },
        }
        self.invalidate_pair(sub, obj);
        self.generation = self.generation + 1;
        proof {
            let p0 = old(self).policies@;
            let p1 = self.policies@;
            assert forall|k: int|
                0 <= k < self.cache@.len() implies (#[trigger] self.cache@[k]).decision == decision(
                p1,
                self.cache@[k].sub,
                self.cache@[k].obj,
                self.cache@[k].act,
            ) by {
                let e = self.cache@[k];
                assert(old(self).cache@.contains(e));
                let j = choose|j: int|
                    0 <= j < old(self).cache@.len() && old(self).cache@[j] == e;
                assert(old(self).cache@[j].decision == decision(p0, e.sub, e.obj, e.act));
                assert(lookup(p1, e.sub, e.obj) == lookup(p0, e.sub, e.obj));
            }
        }
    }

    /// Drops every cached decision keyed by the pair; all other entries
    /// stay, untouched, as does the rest of the enforcer.
    fn invalidate_pair(&mut self, sub: SubjectType, obj: ObjectType)
        ensures
            final(self).policies@ == old(self).policies@,
            final(self).groupings@ == old(self).groupings@,
            final(self).generation == old(self).generation,
            forall|i: int|
                0 <= i < final(self).cache@.len() ==> old(self).cache@.contains(
                    #[trigger] final(self).cache@[i],
                ) && !(final(self).cache@[i].sub == sub && final(self).cache@[i].obj == obj),
    {
        let kept = retain_other(&self.cache, &sub, &obj);
        self.cache = kept;
    }

    /// Replaces the materialized set with a snapshot at the given
    /// generation and clears the cache; recovery and strong-mode catch-up.
    pub fn reload(&mut self, snapshot: Vec<PolicyEntry>, generation: u64)
        requires
            old(self).wf(),
            unique_keys(snapshot@),
            generation >= old(self).generation,
        ensures
            final(self).wf(),
            final(self).policies@ == snapshot@,
            final(self).cache@.len() == 0,
            final(self).generation == generation,
            final(self).groupings@ == old(self).groupings@,
    {
        self.policies = snapshot;
        self.cache.clear();
        self.generation = generation;
    }
}

/// Looks a request up in the decision cache.
fn cache_find(
    cache: &Vec<CacheEntry>,
    sub: &SubjectType,
    obj: &ObjectType,
    act: &EnforceAct,
) -> (r: Option<bool>)
    ensures
        match r {
            Some(b) => exists|i: int|
                0 <= i < cache@.len() && (#[trigger] cache@[i]).sub == *sub && cache@[i].obj == *obj
                    && cache@[i].act == *act && cache@[i].decision == b,
            None => true,
        },
{
    let mut i: usize = 0;
    while i < cache.len()
        invariant
            0 <= i <= cache@.len(),
        decreases cache@.len() - i,
    {
        let e = &cache[i];
        if e.sub == *sub && e.obj == *obj && e.act == *act {
            return Some(e.decision);
        }
        i = i + 1;
    }
    None
}

/// The cache entries not keyed by the given pair, in order.
fn retain_other(cache: &Vec<CacheEntry>, sub: &SubjectType, obj: &ObjectType) -> (r: Vec<
    CacheEntry,
>)
    ensures
        forall|i: int|
            0 <= i < r@.len() ==> cache@.contains(#[trigger] r@[i]) && !(r@[i].sub == *sub
                && r@[i].obj == *obj),
{
    let mut r: Vec<CacheEntry> = Vec::new();
    let mut i: usize = 0;
    while i < cache.len()
        invariant
            0 <= i <= cache@.len(),
            forall|k: int|
                0 <= k < r@.len() ==> cache@.contains(#[trigger] r@[k]) && !(r@[k].sub == *sub
                    && r@[k].obj == *obj),
        decreases cache@.len() - i,
    {
        let e = cache[i];
        if !(e.sub == *sub && e.obj == *obj) {
            let ghost r0 = r@;
            r.push(e);
            proof {
                assert(cache@[i as int] == e);
                assert(forall|k: int| 0 <= k < r0.len() ==> #[trigger] r@[k] == r0[k]);
            }
        }
        i = i + 1;
    }
    r
}

} // verus!
