//! Executable matching: policy lookup, the precomputed grouping closure,
//! and the allow/deny evaluation.

use vstd::prelude::*;

use crate::model::cmp_role_or_level;
use crate::model::grant_implies;
use crate::model::AccessLevel;
use crate::model::Action;
use crate::model::EnforceAct;
use crate::model::Grant;
use crate::model::Role;
use crate::policy::decision;
use crate::policy::groupings_exact;
use crate::policy::key_matches;
use crate::policy::lemma_lookup_first;
use crate::policy::lemma_lookup_none_iff;
use crate::policy::lookup;
use crate::policy::GroupingEntry;
use crate::policy::ObjectType;
use crate::policy::PolicyEntry;
use crate::policy::SubjectType;

verus! {

/// Index of the first policy entry keyed by the pair, if any; the returned
/// facts characterize `lookup` on the set.
pub fn find_index(
    policies: &Vec<PolicyEntry>,
    sub: &SubjectType,
    obj: &ObjectType,
) -> (r: Option<usize>)
    ensures
        match r {
            Some(i) => 0 <= i < policies@.len() && key_matches(policies@[i as int], *sub, *obj)
                && (forall|j: int|
                0 <= j < i ==> !key_matches(#[trigger] policies@[j], *sub, *obj)),
            None => forall|j: int|
                0 <= j < policies@.len() ==> !key_matches(#[trigger] policies@[j], *sub, *obj),
        },
{
    let mut i: usize = 0;
    while i < policies.len()
        invariant
            0 <= i <= policies@.len(),
            forall|j: int| 0 <= j < i ==> !key_matches(#[trigger] policies@[j], *sub, *obj),
        decreases policies@.len() - i,
    {
        let e = &policies[i];
        if e.sub == *sub && e.obj == *obj {
            return Some(i);
        }
        i = i + 1;
    }
    None
}

/// The grant the materialized set holds for the pair, if any.
pub fn find_grant(
    policies: &Vec<PolicyEntry>,
    sub: &SubjectType,
    obj: &ObjectType,
) -> (r: Option<Grant>)
    ensures
        r == lookup(policies@, *sub, *obj),
{
    match find_index(policies, sub, obj) {
        Some(i) => {
            proof {
                lemma_lookup_first(policies@, i as int, *sub, *obj);
            }
            Some(policies[i].grant)
        },
        None => {
            proof {
                lemma_lookup_none_iff(policies@, *sub, *obj);
            }
            None
        },
    }
}

/// Whether the grouping table holds the row `(g, a)`.
pub fn in_groupings(gs: &Vec<GroupingEntry>, g: &Grant, a: &Action) -> (b: bool)
    ensures
        b == gs@.contains(GroupingEntry { grant: *g, action: *a }),
{
    let mut i: usize = 0;
    while i < gs.len()
        invariant
            0 <= i <= gs@.len(),
            forall|j: int|
                0 <= j < i ==> #[trigger] gs@[j] != (GroupingEntry { grant: *g, action: *a }),
        decreases gs@.len() - i,
    {
        let e = &gs[i];
        if e.grant == *g && e.action == *a {
            assert(gs@[i as int] == GroupingEntry { grant: *g, action: *a });
            return true;
        }
        i = i + 1;
    }
    false
}

/// Evaluates one request against the materialized policies and the grouping
/// closure: deny without a policy; a concrete action consults the closure;
/// a threshold compares ranks.
pub fn evaluate(
    policies: &Vec<PolicyEntry>,
    groupings: &Vec<GroupingEntry>,
    sub: &SubjectType,
    obj: &ObjectType,
    req: &EnforceAct,
) -> (b: bool)
    requires
        groupings_exact(groupings@),
    ensures
        b == decision(policies@, *sub, *obj, *req),
{
    match find_grant(policies, sub, obj) {
        None => false,
        Some(g) => match req {
            EnforceAct::Act(a) => in_groupings(groupings, &g, a),
            _ => {
                let p_act = match g {
                    Grant::Role(r) => EnforceAct::Role(r),
                    Grant::Level(l) => EnforceAct::Level(l),
                };
                cmp_role_or_level(req, &p_act)
            },
        },
    }
}

/// Pushes the rows of one access level: a read row always, a write row
/// when the level writes, a delete row when it deletes.
fn push_level_rows(v: &mut Vec<GroupingEntry>, level: AccessLevel)
    ensures
        old(v)@.len() <= final(v)@.len(),
        forall|j: int| 0 <= j < old(v)@.len() ==> #[trigger] final(v)@[j] == old(v)@[j],
        forall|a: Action|
            #[trigger] grant_implies(Grant::Level(level), a) ==> final(v)@.contains(
                GroupingEntry { grant: Grant::Level(level), action: a },
            ),
        forall|j: int|
            old(v)@.len() <= j < final(v)@.len() ==> grant_implies(
                (#[trigger] final(v)@[j]).grant,
                final(v)@[j].action,
            ),
{
    let ghost n0 = old(v)@.len() as int;
    v.push(GroupingEntry { grant: Grant::Level(level), action: Action::Read });
    if level.can_write() {
        v.push(GroupingEntry { grant: Grant::Level(level), action: Action::Write });
    }
    if level.can_delete() {
        v.push(GroupingEntry { grant: Grant::Level(level), action: Action::Delete });
    }
    proof {
        assert(v@[n0] == (GroupingEntry { grant: Grant::Level(level), action: Action::Read }));
        if grant_implies(Grant::Level(level), Action::Write) {
            assert(v@[n0 + 1] == (GroupingEntry {
                grant: Grant::Level(level),
                action: Action::Write,
            }));
        }
        if grant_implies(Grant::Level(level), Action::Delete) {
            assert(v@[n0 + 2] == (GroupingEntry {
                grant: Grant::Level(level),
                action: Action::Delete,
            }));
        }
        assert forall|a: Action| #[trigger] grant_implies(Grant::Level(level), a) implies v@
            .contains(GroupingEntry { grant: Grant::Level(level), action: a }) by {
            match a {
                Action::Read => {},
                Action::Write => {},
                Action::Delete => {},
            }
        }
    }
}

/// Rows present in a prefix-preserving extension stay present.
proof fn lemma_prefix_contains(s1: Seq<GroupingEntry>, s2: Seq<GroupingEntry>, e: GroupingEntry)
    requires
        s1.len() <= s2.len(),
        forall|j: int| 0 <= j < s1.len() ==> #[trigger] s2[j] == s1[j],
        s1.contains(e),
    ensures
        s2.contains(e),
{
    let j = choose|j: int| 0 <= j < s1.len() && s1[j] == e;
    assert(s2[j] == e);
}

/// Pushes the rows of one role, as the role table defines them.
fn push_role_rows(v: &mut Vec<GroupingEntry>, role: Role)
    ensures
        old(v)@.len() <= final(v)@.len(),
        forall|j: int| 0 <= j < old(v)@.len() ==> #[trigger] final(v)@[j] == old(v)@[j],
        forall|a: Action|
            #[trigger] grant_implies(Grant::Role(role), a) ==> final(v)@.contains(
                GroupingEntry { grant: Grant::Role(role), action: a },
            ),
        forall|j: int|
            old(v)@.len() <= j < final(v)@.len() ==> grant_implies(
                (#[trigger] final(v)@[j]).grant,
                final(v)@[j].action,
            ),
{
    match role {
        Role::Owner => {
            v.push(GroupingEntry { grant: Grant::Role(role), action: Action::Delete });
            v.push(GroupingEntry { grant: Grant::Role(role), action: Action::Write });
            v.push(GroupingEntry { grant: Grant::Role(role), action: Action::Read });
        },
        Role::Member => {
            v.push(GroupingEntry { grant: Grant::Role(role), action: Action::Write });
            v.push(GroupingEntry { grant: Grant::Role(role), action: Action::Read });
        },
        Role::Guest => {
            v.push(GroupingEntry { grant: Grant::Role(role), action: Action::Write });
            v.push(GroupingEntry { grant: Grant::Role(role), action: Action::Read });
        },
    }
    proof {
        assert forall|a: Action| #[trigger] grant_implies(Grant::Role(role), a) implies v@.contains(
            GroupingEntry { grant: Grant::Role(role), action: a },
        ) by {
            let n = v@.len();
            match role {
                Role::Owner => {
                    assert(v@[n - 3] == (GroupingEntry {
                        grant: Grant::Role(role),
                        action: Action::Delete,
                    }));
                    assert(v@[n - 2] == (GroupingEntry {
                        grant: Grant::Role(role),
                        action: Action::Write,
                    }));
                    assert(v@[n - 1] == (GroupingEntry {
                        grant: Grant::Role(role),
                        action: Action::Read,
                    }));
                },
                _ => {
                    assert(v@[n - 2] == (GroupingEntry {
                        grant: Grant::Role(role),
                        action: Action::Write,
                    }));
                    assert(v@[n - 1] == (GroupingEntry {
                        grant: Grant::Role(role),
                        action: Action::Read,
                    }));
                },
            }
        }
    }
}

/// Builds the grouping closure the matcher consults: the rows of every
/// access level, then the rows of every role. Regenerated mechanically at
/// startup; complete and sound for `grant_implies`.
pub fn load_group_policies() -> (v: Vec<GroupingEntry>)
    ensures
        groupings_exact(v@),
{
    let mut v: Vec<GroupingEntry> = Vec::new();
    push_level_rows(&mut v, AccessLevel::ReadOnly);
    let ghost s1 = v@;
    push_level_rows(&mut v, AccessLevel::ReadAndComment);
    let ghost s2 = v@;
    push_level_rows(&mut v, AccessLevel::ReadAndWrite);
    let ghost s3 = v@;
    push_level_rows(&mut v, AccessLevel::FullAccess);
    let ghost s4 = v@;
    push_role_rows(&mut v, Role::Owner);
    let ghost s5 = v@;
    push_role_rows(&mut v, Role::Member);
    let ghost s6 = v@;
    push_role_rows(&mut v, Role::Guest);
    let ghost s7 = v@;
    proof {
        assert(forall|j: int| 0 <= j < s6.len() ==> #[trigger] s7[j] == s6[j]);
        assert(forall|j: int| 0 <= j < s5.len() ==> #[trigger] s7[j] == s5[j]);
        assert(forall|j: int| 0 <= j < s4.len() ==> #[trigger] s7[j] == s4[j]);
        assert(forall|j: int| 0 <= j < s3.len() ==> #[trigger] s7[j] == s3[j]);
        assert(forall|j: int| 0 <= j < s2.len() ==> #[trigger] s7[j] == s2[j]);
        assert(forall|j: int| 0 <= j < s1.len() ==> #[trigger] s7[j] == s1[j]);
        assert forall|g: Grant, a: Action|
            v@.contains(GroupingEntry { grant: g, action: a }) == #[trigger] grant_implies(
                g,
                a,
            ) by {
            if v@.contains(GroupingEntry { grant: g, action: a }) {
                let j = choose|j: int|
                    0 <= j < v@.len() && v@[j] == (GroupingEntry { grant: g, action: a });
                if j < s1.len() {
                    assert(s7[j] == s1[j]);
                } else if j < s2.len() {
                    assert(s7[j] == s2[j]);
                } else if j < s3.len() {
                    assert(s7[j] == s3[j]);
                } else if j < s4.len() {
                    assert(s7[j] == s4[j]);
                } else if j < s5.len() {
                    assert(s7[j] == s5[j]);
                } else if j < s6.len() {
                    assert(s7[j] == s6[j]);
                }
                assert(grant_implies(v@[j].grant, v@[j].action));
            }
            if grant_implies(g, a) {
                let row = GroupingEntry { grant: g, action: a };
                match g {
                    Grant::Level(l) => {
                        let si: Seq<GroupingEntry> = match l {
                            AccessLevel::ReadOnly => s1,
                            AccessLevel::ReadAndComment => s2,
                            AccessLevel::ReadAndWrite => s3,
                            AccessLevel::FullAccess => s4,
                        };
                        assert(si.contains(row));
                        lemma_prefix_contains(si, s7, row);
                    },
                    Grant::Role(r) => {
                        let si: Seq<GroupingEntry> = match r {
                            Role::Owner => s5,
                            Role::Member => s6,
                            Role::Guest => s7,
                        };
                        assert(si.contains(row));
                        lemma_prefix_contains(si, s7, row);
                    },
                }
            }
        }
    }
    v
}

} // verus!
