//! The role/level model: actions, roles, access levels, grants, and the
//! comparison semantics between them.

use vstd::prelude::*;

verus! {

/// A concrete permission a caller can request.
#[derive(Clone, Copy, Debug, PartialEq, Eq, Structural)]
pub enum Action {
    Read,
    Write,
    Delete,
}

/// A coarse permission bundle, ordered `Guest < Member < Owner` by rank.
#[derive(Clone, Copy, Debug, PartialEq, Eq, Structural)]
pub enum Role {
    Guest,
    Member,
    Owner,
}

/// A finer-grained permission bundle, ordered
/// `ReadOnly < ReadAndComment < ReadAndWrite < FullAccess` by rank.
#[derive(Clone, Copy, Debug, PartialEq, Eq, Structural)]
pub enum AccessLevel {
    ReadOnly,
    ReadAndComment,
    ReadAndWrite,
    FullAccess,
}

/// The grant stored in a policy: a role-tagged or a level-tagged token.
#[derive(Clone, Copy, Debug, PartialEq, Eq, Structural)]
pub enum Grant {
    Role(Role),
    Level(AccessLevel),
}

/// What a request asks for: either a concrete action, or a minimum
/// role/level threshold.
#[derive(Clone, Copy, Debug, PartialEq, Eq, Structural)]
pub enum EnforceAct {
    Act(Action),
    Role(Role),
    Level(AccessLevel),
}

/// Rank of a role: `Guest(1) < Member(2) < Owner(3)`.
pub open spec fn role_rank(r: Role) -> int {
    match r {
        Role::Guest => 1,
        Role::Member => 2,
        Role::Owner => 3,
    }
}

/// Rank of an access level: `ReadOnly(10) < ReadAndComment(20) <
/// ReadAndWrite(30) < FullAccess(50)`.
pub open spec fn level_rank(l: AccessLevel) -> int {
    match l {
        AccessLevel::ReadOnly => 10,
        AccessLevel::ReadAndComment => 20,
        AccessLevel::ReadAndWrite => 30,
        AccessLevel::FullAccess => 50,
    }
}

/// The access level a role normalizes to for cross-kind comparison:
/// `Owner -> FullAccess`, `Member`/`Guest -> ReadAndWrite`.
pub open spec fn level_of_role(r: Role) -> AccessLevel {
    match r {
        Role::Owner => AccessLevel::FullAccess,
        Role::Member => AccessLevel::ReadAndWrite,
        Role::Guest => AccessLevel::ReadAndWrite,
    }
}

/// The actions an access level implies: every level reads; `ReadAndWrite`
/// and above write; only `FullAccess` deletes.
pub open spec fn level_implies(l: AccessLevel, a: Action) -> bool {
    match a {
        Action::Read => true,
        Action::Write => level_rank(l) >= 30,
        Action::Delete => level_rank(l) >= 50,
    }
}

/// The actions a role implies: `Owner` does everything; `Member` and
/// `Guest` read and write but never delete.
pub open spec fn role_implies(r: Role, a: Action) -> bool {
    match a {
        Action::Read => true,
        Action::Write => true,
        Action::Delete => r == Role::Owner,
    }
}

/// The grouping closure of a grant: the set of actions it implies.
pub open spec fn grant_implies(g: Grant, a: Action) -> bool {
    match g {
        Grant::Role(r) => role_implies(r, a),
        Grant::Level(l) => level_implies(l, a),
    }
}

/// The enforce-act token a grant carries in a comparison.
pub open spec fn grant_act(g: Grant) -> EnforceAct {
    match g {
        Grant::Role(r) => EnforceAct::Role(r),
        Grant::Level(l) => EnforceAct::Level(l),
    }
}

/// Rank comparison between a requested threshold `r_act` and a policy grant
/// `p_act`: allow iff the grant's rank is at least the requested rank. A
/// mixed role/level comparison normalizes the role side to its equivalent
/// access level, never the reverse. A concrete action on either side never
/// compares.
pub open spec fn cmp_acts(r_act: EnforceAct, p_act: EnforceAct) -> bool {
    match (r_act, p_act) {
        (EnforceAct::Role(rr), EnforceAct::Role(pr)) => role_rank(pr) >= role_rank(rr),
        (EnforceAct::Level(rl), EnforceAct::Level(pl)) => level_rank(pl) >= level_rank(rl),
        (EnforceAct::Level(rl), EnforceAct::Role(pr)) => level_rank(level_of_role(pr))
            >= level_rank(rl),
        (EnforceAct::Role(rr), EnforceAct::Level(pl)) => level_rank(pl)
            >= level_rank(level_of_role(rr)),
        _ => false,
    }
}

/// Whether a stored grant satisfies a requirement: a concrete action goes
/// through the grouping closure, a threshold through rank comparison.
pub open spec fn grant_allows(g: Grant, req: EnforceAct) -> bool {
    match req {
        EnforceAct::Act(a) => grant_implies(g, a),
        _ => cmp_acts(req, grant_act(g)),
    }
}

impl Role {
    /// Executable rank of this role.
    pub fn rank(&self) -> (n: u8)
        ensures
            n as int == role_rank(*self),
    {
        match self {
            Role::Guest => 1,
            Role::Member => 2,
            Role::Owner => 3,
        }
    }

    /// The access level this role normalizes to for cross-kind comparison.
    pub fn as_level(&self) -> (l: AccessLevel)
        ensures
            l == level_of_role(*self),
    {
        match self {
            Role::Owner => AccessLevel::FullAccess,
            Role::Member => AccessLevel::ReadAndWrite,
            Role::Guest => AccessLevel::ReadAndWrite,
        }
    }
}

impl AccessLevel {
    /// Executable rank of this level.
    pub fn rank(&self) -> (n: u8)
        ensures
            n as int == level_rank(*self),
    {
        match self {
            AccessLevel::ReadOnly => 10,
            AccessLevel::ReadAndComment => 20,
            AccessLevel::ReadAndWrite => 30,
            AccessLevel::FullAccess => 50,
        }
    }

    /// Whether this level grants `Write`.
    pub fn can_write(&self) -> (b: bool)
        ensures
            b == level_implies(*self, Action::Write),
    {
        self.rank() >= 30
    }

    /// Whether this level grants `Delete`.
    pub fn can_delete(&self) -> (b: bool)
        ensures
            b == level_implies(*self, Action::Delete),
    {
        self.rank() >= 50
    }
}

/// Compares a requested role or level against a policy's role or level.
///
/// Allows iff the policy side ranks at least as high as the requested side,
/// normalizing a role to its equivalent access level when the kinds differ.
/// If either side is a concrete action rather than a threshold, the
/// comparison denies.
pub fn cmp_role_or_level(r_act: &EnforceAct, p_act: &EnforceAct) -> (b: bool)
    ensures
        b == cmp_acts(*r_act, *p_act),
{
    match (r_act, p_act) {
        (EnforceAct::Role(rr), EnforceAct::Role(pr)) => pr.rank() >= rr.rank(),
        (EnforceAct::Level(rl), EnforceAct::Level(pl)) => pl.rank() >= rl.rank(),
        (EnforceAct::Level(rl), EnforceAct::Role(pr)) => pr.as_level().rank() >= rl.rank(),
        (EnforceAct::Role(rr), EnforceAct::Level(pl)) => pl.rank() >= rr.as_level().rank(),
        _ => false,
    }
}

/// Law: grant coverage is monotonic in rank. A higher-ranked access level
/// implies every action a lower-ranked one does, and likewise for roles.
pub proof fn lemma_monotonic_grant_coverage(l1: AccessLevel, l2: AccessLevel, r1: Role, r2: Role, a: Action)
    requires
        level_rank(l1) <= level_rank(l2),
        role_rank(r1) <= role_rank(r2),
    ensures
        level_implies(l1, a) ==> level_implies(l2, a),
        role_implies(r1, a) ==> role_implies(r2, a),
{
}

/// Law: rank comparison is reflexive. A grant always satisfies the
/// threshold of its own token, and a cross-kind threshold of identical
/// normalized rank.
pub proof fn lemma_rank_comparison_reflexive(g: Grant, r: Role, l: AccessLevel)
    ensures
        cmp_acts(grant_act(g), grant_act(g)),
        level_of_role(r) == l ==> cmp_acts(EnforceAct::Level(l), EnforceAct::Role(r)),
        level_of_role(r) == l ==> cmp_acts(EnforceAct::Role(r), EnforceAct::Level(l)),
{
}

/// Law: a role-based grant meets an access-level requirement exactly when
/// the role's equivalent access level ranks at least as high; in
/// particular an `Owner` grant satisfies every level requirement.
pub proof fn lemma_cross_kind_normalization(r: Role, l: AccessLevel)
    ensures
        cmp_acts(EnforceAct::Level(l), EnforceAct::Role(r)) == (level_rank(level_of_role(r))
            >= level_rank(l)),
        cmp_acts(EnforceAct::Level(l), EnforceAct::Role(Role::Owner)),
{
}

} // verus!
