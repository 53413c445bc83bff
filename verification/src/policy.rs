//! Policy triples, the materialized policy set, and the matching rule that
//! decides allow/deny.

use vstd::prelude::*;

use crate::model::grant_allows;
use crate::model::grant_implies;
use crate::model::Action;
use crate::model::EnforceAct;
use crate::model::Grant;

verus! {

/// Who is requesting: a user or a group, carried as a stable numeric key.
#[derive(Clone, Copy, Debug, PartialEq, Eq, Structural)]
pub enum SubjectType {
    User(i64),
    Group(i64),
}

/// The resource requested: its kind and a stable numeric key.
#[derive(Clone, Copy, Debug, PartialEq, Eq, Structural)]
pub enum ObjectType {
    Workspace(i64),
    Collab(i64),
}

/// One policy triple: `subject` holds `grant` on `object`.
#[derive(Clone, Copy, Debug, PartialEq, Eq, Structural)]
pub struct PolicyEntry {
    pub sub: SubjectType,
    pub obj: ObjectType,
    pub grant: Grant,
}

/// One row of the grouping closure: `grant` implies `action`.
#[derive(Clone, Copy, Debug, PartialEq, Eq, Structural)]
pub struct GroupingEntry {
    pub grant: Grant,
    pub action: Action,
}

/// Whether a policy entry is keyed by the given subject/object pair.
pub open spec fn key_matches(e: PolicyEntry, sub: SubjectType, obj: ObjectType) -> bool {
    e.sub == sub && e.obj == obj
}

/// The grant the policy set holds for a subject/object pair: the first
/// entry with that key, if any.
pub open spec fn lookup(s: Seq<PolicyEntry>, sub: SubjectType, obj: ObjectType) -> Option<Grant>
    decreases s.len(),
{
    if s.len() == 0 {
        None
    } else if key_matches(s[0], sub, obj) {
        Some(s[0].grant)
    } else {
        lookup(s.subrange(1, s.len() as int), sub, obj)
    }
}

/// At most one entry per subject/object pair.
pub open spec fn unique_keys(s: Seq<PolicyEntry>) -> bool {
    forall|i: int, j: int|
        0 <= i < j < s.len() ==> !(#[trigger] s[i].sub == #[trigger] s[j].sub && s[i].obj
            == s[j].obj)
}

/// The matching rule: deny when no policy is stored for the pair, else ask
/// whether the stored grant satisfies the requirement.
pub open spec fn decision(
    s: Seq<PolicyEntry>,
    sub: SubjectType,
    obj: ObjectType,
    req: EnforceAct,
) -> bool {
    match lookup(s, sub, obj) {
        None => false,
        Some(g) => grant_allows(g, req),
    }
}

/// The lookup finds nothing exactly when no entry carries the key.
pub proof fn lemma_lookup_none_iff(s: Seq<PolicyEntry>, sub: SubjectType, obj: ObjectType)
    ensures
        (lookup(s, sub, obj) == Option::<Grant>::None) <==> (forall|i: int|
            0 <= i < s.len() ==> !key_matches(#[trigger] s[i], sub, obj)),
    decreases s.len(),
{
    if s.len() > 0 {
        let t = s.subrange(1, s.len() as int);
        lemma_lookup_none_iff(t, sub, obj);
        assert(forall|i: int| 0 <= i < t.len() ==> #[trigger] t[i] == s[i + 1]);
        assert(forall|i: int| 1 <= i < s.len() ==> #[trigger] s[i] == t[i - 1]);
    }
}

/// The lookup returns the grant of the first entry that carries the key.
pub proof fn lemma_lookup_first(s: Seq<PolicyEntry>, i: int, sub: SubjectType, obj: ObjectType)
    requires
        0 <= i < s.len(),
        key_matches(s[i], sub, obj),
        forall|j: int| 0 <= j < i ==> !key_matches(#[trigger] s[j], sub, obj),
    ensures
        lookup(s, sub, obj) == Some(s[i].grant),
    decreases i,
{
    if i > 0 {
        let t = s.subrange(1, s.len() as int);
        assert(forall|k: int| 0 <= k < t.len() ==> #[trigger] t[k] == s[k + 1]);
        lemma_lookup_first(t, i - 1, sub, obj);
    }
}

/// A successful lookup names a first entry that carries the key.
pub proof fn lemma_lookup_some_index(s: Seq<PolicyEntry>, sub: SubjectType, obj: ObjectType)
    requires
        lookup(s, sub, obj) != Option::<Grant>::None,
    ensures
        exists|i: int|
            0 <= i < s.len() && key_matches(#[trigger] s[i], sub, obj) && lookup(s, sub, obj)
                == Some(s[i].grant) && (forall|j: int|
                0 <= j < i ==> !key_matches(#[trigger] s[j], sub, obj)),
    decreases s.len(),
{
    if key_matches(s[0], sub, obj) {
        assert(0 <= 0 < s.len() && key_matches(s[0], sub, obj) && lookup(s, sub, obj) == Some(
            s[0].grant,
        ) && (forall|j: int| 0 <= j < 0 ==> !key_matches(#[trigger] s[j], sub, obj)));
    } else {
        let t = s.subrange(1, s.len() as int);
        assert(forall|k: int| 0 <= k < t.len() ==> #[trigger] t[k] == s[k + 1]);
        lemma_lookup_some_index(t, sub, obj);
        let i = choose|i: int|
            0 <= i < t.len() && key_matches(#[trigger] t[i], sub, obj) && lookup(t, sub, obj)
                == Some(t[i].grant) && (forall|j: int|
                0 <= j < i ==> !key_matches(#[trigger] t[j], sub, obj));
        assert(0 <= i + 1 < s.len() && key_matches(s[i + 1], sub, obj) && lookup(s, sub, obj)
            == Some(s[i + 1].grant));
        assert(forall|j: int| 0 <= j < i + 1 ==> !key_matches(#[trigger] s[j], sub, obj)) by {
            assert(forall|j: int| 1 <= j < s.len() ==> #[trigger] s[j] == t[j - 1]);
        }
    }
}

/// Two policy sets that agree, entry by entry, on which entries carry a key
/// and what those entries grant, agree on the lookup for that key.
pub proof fn lemma_lookup_agree(
    s1: Seq<PolicyEntry>,
    s2: Seq<PolicyEntry>,
    sub: SubjectType,
    obj: ObjectType,
)
    requires
        s1.len() == s2.len(),
        forall|i: int|
            0 <= i < s1.len() ==> (key_matches(#[trigger] s1[i], sub, obj) == key_matches(
                #[trigger] s2[i],
                sub,
                obj,
            ) && (key_matches(s1[i], sub, obj) ==> s1[i].grant == s2[i].grant)),
    ensures
        lookup(s1, sub, obj) == lookup(s2, sub, obj),
    decreases s1.len(),
{
    if s1.len() > 0 && !key_matches(s1[0], sub, obj) {
        let t1 = s1.subrange(1, s1.len() as int);
        let t2 = s2.subrange(1, s2.len() as int);
        assert(forall|k: int| 0 <= k < t1.len() ==> #[trigger] t1[k] == s1[k + 1]);
        assert(forall|k: int| 0 <= k < t2.len() ==> #[trigger] t2[k] == s2[k + 1]);
        lemma_lookup_agree(t1, t2, sub, obj);
    }
}

/// Law: default deny. A pair with no stored policy is denied whatever the
/// requirement asks for.
pub proof fn lemma_default_deny(
    s: Seq<PolicyEntry>,
    sub: SubjectType,
    obj: ObjectType,
    req: EnforceAct,
)
    requires
        lookup(s, sub, obj) == Option::<Grant>::None,
    ensures
        !decision(s, sub, obj, req),
{
}

/// The complete grouping closure: a table that holds a row `(g, a)` exactly
/// when grant `g` implies action `a`.
pub open spec fn groupings_exact(gs: Seq<GroupingEntry>) -> bool {
    forall|g: Grant, a: Action|
        gs.contains(GroupingEntry { grant: g, action: a }) == #[trigger] grant_implies(g, a)
}

} // verus!
