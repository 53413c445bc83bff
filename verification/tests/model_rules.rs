use access_control::matcher::in_groupings;
use access_control::matcher::load_group_policies;
use access_control::model::cmp_role_or_level;
use access_control::model::AccessLevel;
use access_control::model::Action;
use access_control::model::EnforceAct;
use access_control::model::Grant;
use access_control::model::Role;
use access_control::policy::GroupingEntry;

fn granted_actions(table: &Vec<GroupingEntry>, g: Grant) -> [bool; 3] {
    [
        in_groupings(table, &g, &Action::Read),
        in_groupings(table, &g, &Action::Write),
        in_groupings(table, &g, &Action::Delete),
    ]
}

fn subset(a: [bool; 3], b: [bool; 3]) -> bool {
    (0..3).all(|i| !a[i] || b[i])
}

#[test]
fn rank_values_are_exact() {
    assert_eq!(Role::Guest.rank(), 1);
    assert_eq!(Role::Member.rank(), 2);
    assert_eq!(Role::Owner.rank(), 3);
    assert_eq!(AccessLevel::ReadOnly.rank(), 10);
    assert_eq!(AccessLevel::ReadAndComment.rank(), 20);
    assert_eq!(AccessLevel::ReadAndWrite.rank(), 30);
    assert_eq!(AccessLevel::FullAccess.rank(), 50);
}

#[test]
fn role_normalization_is_exact() {
    assert_eq!(Role::Owner.as_level(), AccessLevel::FullAccess);
    assert_eq!(Role::Member.as_level(), AccessLevel::ReadAndWrite);
    assert_eq!(Role::Guest.as_level(), AccessLevel::ReadAndWrite);
}

#[test]
fn grouping_table_matches_implication_tables() {
    let table = load_group_policies();
    assert_eq!(granted_actions(&table, Grant::Level(AccessLevel::ReadOnly)), [true, false, false]);
    assert_eq!(
        granted_actions(&table, Grant::Level(AccessLevel::ReadAndComment)),
        [true, false, false]
    );
    assert_eq!(
        granted_actions(&table, Grant::Level(AccessLevel::ReadAndWrite)),
        [true, true, false]
    );
    assert_eq!(granted_actions(&table, Grant::Level(AccessLevel::FullAccess)), [true, true, true]);
    assert_eq!(granted_actions(&table, Grant::Role(Role::Owner)), [true, true, true]);
    assert_eq!(granted_actions(&table, Grant::Role(Role::Member)), [true, true, false]);
    assert_eq!(granted_actions(&table, Grant::Role(Role::Guest)), [true, true, false]);
}

#[test]
fn grant_coverage_is_monotonic() {
    let table = load_group_policies();
    let levels = [
        AccessLevel::ReadOnly,
        AccessLevel::ReadAndComment,
        AccessLevel::ReadAndWrite,
        AccessLevel::FullAccess,
    ];
    for i in 0..levels.len() {
        for j in i..levels.len() {
            assert!(subset(
                granted_actions(&table, Grant::Level(levels[i])),
                granted_actions(&table, Grant::Level(levels[j])),
            ));
        }
    }
    let roles = [Role::Guest, Role::Member, Role::Owner];
    for i in 0..roles.len() {
        for j in i..roles.len() {
            assert!(subset(
                granted_actions(&table, Grant::Role(roles[i])),
                granted_actions(&table, Grant::Role(roles[j])),
            ));
        }
    }
}

#[test]
fn rank_comparison_is_reflexive() {
    assert!(cmp_role_or_level(&EnforceAct::Role(Role::Member), &EnforceAct::Role(Role::Member)));
    assert!(cmp_role_or_level(
        &EnforceAct::Level(AccessLevel::ReadAndComment),
        &EnforceAct::Level(AccessLevel::ReadAndComment),
    ));
    // Cross-kind at identical normalized rank: Member normalizes to
    // ReadAndWrite, so the two compare equal either way around.
    assert!(cmp_role_or_level(
        &EnforceAct::Level(AccessLevel::ReadAndWrite),
        &EnforceAct::Role(Role::Member),
    ));
    assert!(cmp_role_or_level(
        &EnforceAct::Role(Role::Member),
        &EnforceAct::Level(AccessLevel::ReadAndWrite),
    ));
}

#[test]
fn cross_kind_normalization_compares_correctly() {
    // An Owner grant normalizes to FullAccess and satisfies every level.
    for l in [
        AccessLevel::ReadOnly,
        AccessLevel::ReadAndComment,
        AccessLevel::ReadAndWrite,
        AccessLevel::FullAccess,
    ] {
        assert!(cmp_role_or_level(&EnforceAct::Level(l), &EnforceAct::Role(Role::Owner)));
    }
    // A Member grant (ReadAndWrite) misses a FullAccess requirement but
    // meets a ReadOnly one.
    assert!(!cmp_role_or_level(
        &EnforceAct::Level(AccessLevel::FullAccess),
        &EnforceAct::Role(Role::Member),
    ));
    assert!(cmp_role_or_level(
        &EnforceAct::Level(AccessLevel::ReadOnly),
        &EnforceAct::Role(Role::Guest),
    ));
}

#[test]
fn concrete_actions_never_rank_compare() {
    assert!(!cmp_role_or_level(&EnforceAct::Act(Action::Read), &EnforceAct::Role(Role::Owner)));
    assert!(!cmp_role_or_level(
        &EnforceAct::Level(AccessLevel::ReadOnly),
        &EnforceAct::Act(Action::Read),
    ));
    assert!(!cmp_role_or_level(&EnforceAct::Act(Action::Read), &EnforceAct::Act(Action::Read)));
}
