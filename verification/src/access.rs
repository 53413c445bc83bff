//! The engine API: mutations applied through the pipeline, and enforcement
//! under an eventual or strong consistency mode.

use vstd::prelude::*;

use crate::enforcer::Enforcer;
use crate::model::EnforceAct;
use crate::model::Grant;
use crate::policy::decision;
use crate::policy::ObjectType;
use crate::policy::SubjectType;

verus! {

/// How fresh an enforcement answer must be.
#[derive(Clone, Copy, Debug, PartialEq, Eq, Structural)]
pub enum ConsistencyMode {
    /// Answer from the local materialized state, however stale.
    Eventual,
    /// Answer only when the local state has caught up with the latest
    /// published generation; fail closed otherwise.
    Strong,
}

/// Why an enforcement call failed to produce a definitive answer. Failure
/// is always distinct from denial.
#[derive(Clone, Copy, Debug, PartialEq, Eq, Structural)]
pub enum AccessError {
    /// The latest generation could not be fetched from the shared cache;
    /// a strong check fails closed rather than serve stale state.
    SharedCacheUnreachable,
    /// The local state is behind the latest published generation; the
    /// caller must reload a fresh snapshot and retry.
    StaleReplica,
}

/// The shared fast cache's single datum: the latest published policy
/// generation. It only ever moves forward.
#[derive(Clone, Copy, Debug, PartialEq, Eq, Structural)]
pub struct GenerationCounter {
    pub value: u64,
}

impl GenerationCounter {
    /// A counter starting before every published generation.
    pub fn new() -> (c: GenerationCounter)
        ensures
            c.value == 0,
    {
        GenerationCounter { value: 0 }
    }

    /// The latest generation any replica has published.
    pub fn get_generation(&self) -> (g: u64)
        ensures
            g == self.value,
    {
        self.value
    }

    /// Publishes a new generation; the counter never decreases.
    pub fn publish_generation(&mut self, g: u64)
        requires
            g >= old(self).value,
        ensures
            final(self).value == g,
    {
        self.value = g;
    }
}

/// Manages access control.
///
/// Stores access control policies in the form `subject, object, grant`
/// where the grant is a [`crate::model::Role`] or a
/// [`crate::model::AccessLevel`], materialized in a local enforcer.
/// Requests `subject, object, act` are evaluated against the stored
/// policies and the grouping closure. Durable persistence and the shared
/// generation cache live outside: a caller persists a mutation first, then
/// applies it here, then publishes the new generation; a strong check is
/// handed the latest published generation and fails closed when the local
/// state is behind it.
#[derive(Clone, Debug)]
pub struct AccessControl {
    pub enforcer: Enforcer,
}

impl AccessControl {
    /// Well-formed: the enforcer's invariant holds.
    pub open spec fn wf(self) -> bool {
        self.enforcer.wf()
    }

    /// The grant materialized for a subject/object pair.
    pub open spec fn grant_of(self, sub: SubjectType, obj: ObjectType) -> Option<Grant> {
        self.enforcer.grant_of(sub, obj)
    }

    /// The generation the local state was last applied at.
    pub open spec fn generation_of(self) -> u64 {
        self.enforcer.generation
    }

    /// A fresh engine with no policies, at generation zero.
    pub fn new() -> (s: Self)
        ensures
            s.wf(),
            s.enforcer.policies@.len() == 0,
            s.generation_of() == 0,
    {
        AccessControl { enforcer: Enforcer::new() }
    }

    /// An engine around an existing enforcer.
    pub fn with_enforcer(enforcer: Enforcer) -> (s: Self)
        ensures
            s.enforcer == enforcer,
    {
        AccessControl { enforcer }
    }

    /// Grants `act` to `sub` on `obj`, superseding any prior grant for the
    /// pair, and advances the generation. The caller has already persisted
    /// the same change durably; a persistence failure never reaches this
    /// point.
    pub fn update_policy(&mut self, sub: SubjectType, obj: ObjectType, act: Grant) -> (r: Result<
        (),
        AccessError,
    >)
        requires
            old(self).wf(),
            old(self).generation_of() < u64::MAX,
        ensures
            final(self).wf(),
            r == Result::<(), AccessError>::Ok(()),
            forall|s: SubjectType, o: ObjectType|
                #[trigger] final(self).grant_of(s, o) == if s == sub && o == obj {
                    Some(act)
                } else {
                    old(self).grant_of(s, o)
                },
            final(self).generation_of() == old(self).generation_of() + 1,
    {
        self.enforcer.apply_update(sub, obj, act);
        Ok(())
    }

    /// Removes the pair's grant, if any, and advances the generation.
    /// Removing an absent policy is a no-op success, not an error.
    pub fn remove_policy(&mut self, sub: SubjectType, obj: ObjectType) -> (r: Result<
        (),
        AccessError,
    >)
        requires
            old(self).wf(),
            old(self).generation_of() < u64::MAX,
        ensures
            final(self).wf(),
            r == Result::<(), AccessError>::Ok(()),
            forall|s: SubjectType, o: ObjectType|
                #[trigger] final(self).grant_of(s, o) == if s == sub && o == obj {
                    Option::<Grant>::None
                } else {
                    old(self).grant_of(s, o)
                },
            final(self).generation_of() == old(self).generation_of() + 1,
    {
        self.enforcer.apply_remove(sub, obj);
        Ok(())
    }

    /// Enforces with eventual consistency: evaluates the local state as it
    /// stands, never blocking and never failing.
    pub fn enforce_immediately(&mut self, sub: &SubjectType, obj: ObjectType, act: EnforceAct) -> (r:
        Result<bool, AccessError>)
        requires
            old(self).wf(),
        ensures
            final(self).wf(),
            r == Result::<bool, AccessError>::Ok(
                decision(old(self).enforcer.policies@, *sub, obj, act),
            ),
            final(self).enforcer.policies@ == old(self).enforcer.policies@,
            final(self).generation_of() == old(self).generation_of(),
    {
        let b = self.enforcer.decide(sub, &obj, &act);
        Ok(b)
    }

    /// Whether a strong check must reload before it may answer: true
    /// exactly when the latest published generation is ahead of the local
    /// one.
    pub fn needs_refresh(&self, latest: u64) -> (b: bool)
        ensures
            b == (latest > self.generation_of()),
    {
        latest > self.enforcer.generation
    }

    /// Enforces under the requested consistency mode. `latest` carries the
    /// latest published generation as the caller fetched it from the
    /// shared cache, or `None` when that fetch failed; an eventual check
    /// ignores it, and a single-writer deployment passes its own
    /// generation.
    ///
    /// A strong check answers exactly when the local state has caught up
    /// with `latest`, so it reflects every mutation published up to that
    /// generation; otherwise it fails closed, never serving stale state.
    pub fn enforce_policy_with_consistency(
        &mut self,
        sub: &SubjectType,
        obj: ObjectType,
        act: EnforceAct,
        mode: ConsistencyMode,
        latest: Option<u64>,
    ) -> (r: Result<bool, AccessError>)
        requires
            old(self).wf(),
        ensures
            final(self).wf(),
            final(self).enforcer.policies@ == old(self).enforcer.policies@,
            final(self).generation_of() == old(self).generation_of(),
            mode == ConsistencyMode::Eventual ==> r == Result::<bool, AccessError>::Ok(
                decision(old(self).enforcer.policies@, *sub, obj, act),
            ),
            mode == ConsistencyMode::Strong ==> match latest {
                None => r == Result::<bool, AccessError>::Err(AccessError::SharedCacheUnreachable),
                Some(g) => if g <= old(self).generation_of() {
                    r == Result::<bool, AccessError>::Ok(
                        decision(old(self).enforcer.policies@, *sub, obj, act),
                    )
                } else {
                    r == Result::<bool, AccessError>::Err(AccessError::StaleReplica)
                },
            },
    {
        match mode {
            ConsistencyMode::Eventual => {
                let b = self.enforcer.decide(sub, &obj, &act);
                Ok(b)
            },
            ConsistencyMode::Strong => match latest {
                None => Err(AccessError::SharedCacheUnreachable),
                Some(g) => {
                    if g <= self.enforcer.generation {
                        let b = self.enforcer.decide(sub, &obj, &act);
                        Ok(b)
                    } else {
                        Err(AccessError::StaleReplica)
                    }
                },
            },
        }
    }

    /// Enforces with strong consistency: see
    /// [`Self::enforce_policy_with_consistency`].
    pub fn enforce_strong(
        &mut self,
        latest: Option<u64>,
        sub: &SubjectType,
        obj: ObjectType,
        act: EnforceAct,
    ) -> (r: Result<bool, AccessError>)
        requires
            old(self).wf(),
        ensures
            final(self).wf(),
            final(self).enforcer.policies@ == old(self).enforcer.policies@,
            final(self).generation_of() == old(self).generation_of(),
            match latest {
                None => r == Result::<bool, AccessError>::Err(AccessError::SharedCacheUnreachable),
                Some(g) => if g <= old(self).generation_of() {
                    r == Result::<bool, AccessError>::Ok(
                        decision(old(self).enforcer.policies@, *sub, obj, act),
                    )
                } else {
                    r == Result::<bool, AccessError>::Err(AccessError::StaleReplica)
                },
            },
    {
        self.enforce_policy_with_consistency(sub, obj, act, ConsistencyMode::Strong, latest)
    }

    /// Enforces with eventual consistency through the common entry point.
    pub fn enforce_weak(&mut self, sub: &SubjectType, obj: ObjectType, act: EnforceAct) -> (r:
        Result<bool, AccessError>)
        requires
            old(self).wf(),
        ensures
            final(self).wf(),
            final(self).enforcer.policies@ == old(self).enforcer.policies@,
            final(self).generation_of() == old(self).generation_of(),
            r == Result::<bool, AccessError>::Ok(
                decision(old(self).enforcer.policies@, *sub, obj, act),
            ),
    {
        self.enforce_policy_with_consistency(sub, obj, act, ConsistencyMode::Eventual, None)
    }

    /// The generation the local state was last applied at.
    pub fn generation(&self) -> (g: u64)
        ensures
            g == self.generation_of(),
    {
        self.enforcer.generation
    }

    /// A copy of the materialized policy set, as a store snapshot: what a
    /// durable load would hand a replica that needs to catch up.
    pub fn snapshot(&self) -> (v: Vec<crate::policy::PolicyEntry>)
        ensures
            v@ == self.enforcer.policies@,
    {
        let mut v: Vec<crate::policy::PolicyEntry> = Vec::new();
        let mut i: usize = 0;
        while i < self.enforcer.policies.len()
            invariant
                0 <= i <= self.enforcer.policies@.len(),
                v@ == self.enforcer.policies@.subrange(0, i as int),
            decreases self.enforcer.policies@.len() - i,
        {
            v.push(self.enforcer.policies[i]);
            proof {
                assert(v@ =~= self.enforcer.policies@.subrange(0, i + 1));
            }
            i = i + 1;
        }
        proof {
            assert(v@ =~= self.enforcer.policies@);
        }
        v
    }

    /// The grant currently materialized for the pair, if any.
    pub fn policy_for(&self, sub: &SubjectType, obj: &ObjectType) -> (r: Option<Grant>)
        ensures
            r == self.grant_of(*sub, *obj),
    {
        crate::matcher::find_grant(&self.enforcer.policies, sub, obj)
    }

    /// Replaces the local state with a durable snapshot at the given
    /// generation and clears the cache; used for recovery and for
    /// strong-mode catch-up.
    pub fn reload(&mut self, snapshot: Vec<crate::policy::PolicyEntry>, generation: u64)
        requires
            old(self).wf(),
            crate::policy::unique_keys(snapshot@),
            generation >= old(self).generation_of(),
        ensures
            final(self).wf(),
            final(self).enforcer.policies@ == snapshot@,
            final(self).generation_of() == generation,
    {
        self.enforcer.reload(snapshot, generation);
    }
}

/// One write of the mutation pipeline, as the model sees it.
#[derive(Clone, Copy, Debug, PartialEq, Eq, Structural)]
pub enum WriteOp {
    Upsert(SubjectType, ObjectType, Grant),
    Remove(SubjectType, ObjectType),
}

/// The grant a pair holds after folding a batch of writes over a starting
/// state: the last write that touches the pair wins; pairs no write
/// touches keep their starting grant.
pub open spec fn grant_after(
    pre: AccessControl,
    writes: Seq<WriteOp>,
    s: SubjectType,
    o: ObjectType,
) -> Option<Grant>
    decreases writes.len(),
{
    if writes.len() == 0 {
        pre.grant_of(s, o)
    } else {
        match writes.last() {
            WriteOp::Upsert(ws, wo, g) => if s == ws && o == wo {
                Some(g)
            } else {
                grant_after(pre, writes.drop_last(), s, o)
            },
            WriteOp::Remove(ws, wo) => if s == ws && o == wo {
                Option::<Grant>::None
            } else {
                grant_after(pre, writes.drop_last(), s, o)
            },
        }
    }
}

/// What one write's contract says of the states around it: exactly what
/// `update_policy` and `remove_policy` ensure.
pub open spec fn write_step(mid: AccessControl, w: WriteOp, post: AccessControl) -> bool {
    match w {
        WriteOp::Upsert(ws, wo, g) => forall|s: SubjectType, o: ObjectType|
            #[trigger] post.grant_of(s, o) == if s == ws && o == wo {
                Some(g)
            } else {
                mid.grant_of(s, o)
            },
        WriteOp::Remove(ws, wo) => forall|s: SubjectType, o: ObjectType|
            #[trigger] post.grant_of(s, o) == if s == ws && o == wo {
                Option::<Grant>::None
            } else {
                mid.grant_of(s, o)
            },
    }
}

/// A run of the mutation pipeline: `states[i]` is the engine state after
/// the first `i + 1` writes, and every step satisfies exactly the
/// corresponding mutation's contract.
pub open spec fn pipeline_trace(
    pre: AccessControl,
    writes: Seq<WriteOp>,
    states: Seq<AccessControl>,
) -> bool {
    &&& states.len() == writes.len()
    &&& forall|i: int|
        0 <= i < writes.len() ==> write_step(
            if i == 0 {
                pre
            } else {
                states[i - 1]
            },
            writes[i],
            #[trigger] states[i],
        )
}

/// Law: strong reads are at least as fresh as every write. A state reached
/// by pushing a batch of writes through the mutation pipeline materializes
/// exactly the last-writer-wins fold of the batch, and a strong read
/// answers only from a caught-up state, so it reflects every one of the
/// writes; an eventual read on another replica carries no such guarantee.
pub proof fn lemma_writes_materialize(
    pre: AccessControl,
    writes: Seq<WriteOp>,
    states: Seq<AccessControl>,
    s: SubjectType,
    o: ObjectType,
    req: EnforceAct,
)
    requires
        pipeline_trace(pre, writes, states),
        writes.len() > 0,
    ensures
        states.last().grant_of(s, o) == grant_after(pre, writes, s, o),
        decision(states.last().enforcer.policies@, s, o, req) == match grant_after(
            pre,
            writes,
            s,
            o,
        ) {
            None => false,
            Some(g) => crate::model::grant_allows(g, req),
        },
    decreases writes.len(),
{
    if writes.len() == 1 {
        assert(write_step(pre, writes[0], states[0]));
    } else {
        assert(forall|i: int|
            0 <= i < states.len() - 1 ==> #[trigger] states.drop_last()[i] == states[i]);
        assert(forall|i: int|
            0 <= i < writes.len() - 1 ==> #[trigger] writes.drop_last()[i] == writes[i]);
        lemma_writes_materialize(pre, writes.drop_last(), states.drop_last(), s, o, req);
        assert(states.drop_last().last() == states[states.len() - 2]);
        assert(write_step(states[writes.len() - 2], writes.last(), states.last()));
    }
}

/// Law: cache coherence. Once a mutation has set the pair's materialized
/// grant, every decision for that pair evaluates the new grant; a cached
/// decision can never resurface a superseded one, because enforcement
/// always returns the fresh evaluation of the current state.
pub proof fn lemma_update_visible(
    post: AccessControl,
    sub: SubjectType,
    obj: ObjectType,
    g: Grant,
    req: EnforceAct,
)
    requires
        post.grant_of(sub, obj) == Some(g),
    ensures
        decision(post.enforcer.policies@, sub, obj, req) == crate::model::grant_allows(g, req),
{
}

} // verus!
