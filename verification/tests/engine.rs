use access_control::access::AccessControl;
use access_control::access::AccessError;
use access_control::access::ConsistencyMode;
use access_control::access::GenerationCounter;
use access_control::enforcer::Enforcer;
use access_control::model::AccessLevel;
use access_control::model::Action;
use access_control::model::EnforceAct;
use access_control::model::Grant;
use access_control::model::Role;
use access_control::policy::ObjectType;
use access_control::policy::SubjectType;

#[test]
fn default_deny_without_policy() {
    let mut ac = AccessControl::new();
    let sub = SubjectType::User(42);
    let obj = ObjectType::Workspace(7);
    for act in [
        EnforceAct::Act(Action::Read),
        EnforceAct::Act(Action::Write),
        EnforceAct::Act(Action::Delete),
        EnforceAct::Role(Role::Guest),
        EnforceAct::Level(AccessLevel::ReadOnly),
    ] {
        assert_eq!(ac.enforce_immediately(&sub, obj, act), Ok(false));
    }
}

#[test]
fn with_enforcer_wraps_existing_state() {
    let mut enforcer = Enforcer::new();
    enforcer.apply_update(
        SubjectType::User(1),
        ObjectType::Workspace(1),
        Grant::Role(Role::Owner),
    );
    let mut ac = AccessControl::with_enforcer(enforcer);
    assert_eq!(
        ac.enforce_immediately(
            &SubjectType::User(1),
            ObjectType::Workspace(1),
            EnforceAct::Act(Action::Read),
        ),
        Ok(true)
    );
}

#[test]
fn owner_deletes_stranger_denied() {
    // Policy (uid=1, workspace 1, Owner): uid 1 may delete; uid 2, with no
    // policy, may not even read.
    let mut ac = AccessControl::new();
    let obj = ObjectType::Workspace(1);
    ac.update_policy(SubjectType::User(1), obj, Grant::Role(Role::Owner)).unwrap();
    assert_eq!(
        ac.enforce_immediately(&SubjectType::User(1), obj, EnforceAct::Act(Action::Delete)),
        Ok(true)
    );
    assert_eq!(
        ac.enforce_immediately(&SubjectType::User(2), obj, EnforceAct::Act(Action::Read)),
        Ok(false)
    );
}

#[test]
fn read_and_comment_group_reads_but_cannot_write() {
    // Policy (group G1, collab C1, ReadAndComment): write denied, read allowed.
    let mut ac = AccessControl::new();
    let sub = SubjectType::Group(1);
    let obj = ObjectType::Collab(1);
    ac.update_policy(sub, obj, Grant::Level(AccessLevel::ReadAndComment)).unwrap();
    assert_eq!(ac.enforce_immediately(&sub, obj, EnforceAct::Act(Action::Write)), Ok(false));
    assert_eq!(ac.enforce_immediately(&sub, obj, EnforceAct::Act(Action::Read)), Ok(true));
}

#[test]
fn last_writer_wins_and_strong_read_sees_it() {
    // Member then Guest on the same pair: the materialized grant is Guest,
    // and a strong read still allows Write, which Guest implies.
    let mut ac = AccessControl::new();
    let sub = SubjectType::User(3);
    let obj = ObjectType::Workspace(2);
    ac.update_policy(sub, obj, Grant::Role(Role::Member)).unwrap();
    ac.update_policy(sub, obj, Grant::Role(Role::Guest)).unwrap();
    let latest = Some(ac.generation());
    assert_eq!(ac.enforce_strong(latest, &sub, obj, EnforceAct::Act(Action::Write)), Ok(true));
    assert_eq!(ac.policy_for(&sub, &obj), Some(Grant::Role(Role::Guest)));
}

#[test]
fn update_invalidates_cached_decision() {
    // Cache a denial, raise the grant, and the very next check must see
    // the new grant instead of the stale cached answer.
    let mut ac = AccessControl::new();
    let sub = SubjectType::User(9);
    let obj = ObjectType::Collab(4);
    ac.update_policy(sub, obj, Grant::Level(AccessLevel::ReadOnly)).unwrap();
    assert_eq!(ac.enforce_immediately(&sub, obj, EnforceAct::Act(Action::Write)), Ok(false));
    ac.update_policy(sub, obj, Grant::Level(AccessLevel::FullAccess)).unwrap();
    assert_eq!(ac.enforce_immediately(&sub, obj, EnforceAct::Act(Action::Write)), Ok(true));
    ac.remove_policy(sub, obj).unwrap();
    assert_eq!(ac.enforce_immediately(&sub, obj, EnforceAct::Act(Action::Write)), Ok(false));
}

#[test]
fn removing_absent_policy_is_noop_success() {
    let mut ac = AccessControl::new();
    let before = ac.generation();
    assert_eq!(
        ac.remove_policy(SubjectType::User(5), ObjectType::Workspace(5)),
        Ok(())
    );
    assert_eq!(ac.generation(), before + 1);
    assert_eq!(ac.policy_for(&SubjectType::User(5), &ObjectType::Workspace(5)), None);
}

#[test]
fn strong_read_reflects_all_published_writes() {
    // A writer replica applies a batch of writes and publishes its
    // generation; a second replica must catch up before a strong read
    // answers, and then reflects every write. An eventual read on the
    // stale replica may miss them.
    let mut writer = AccessControl::new();
    let mut reader = AccessControl::new();
    let mut shared = GenerationCounter::new();
    let sub = SubjectType::User(11);
    let obj = ObjectType::Workspace(3);
    writer.update_policy(sub, obj, Grant::Level(AccessLevel::ReadOnly)).unwrap();
    writer.update_policy(sub, obj, Grant::Level(AccessLevel::ReadAndWrite)).unwrap();
    writer
        .update_policy(SubjectType::User(12), obj, Grant::Role(Role::Owner))
        .unwrap();
    shared.publish_generation(writer.generation());

    let latest = shared.get_generation();
    // The stale replica is permitted to miss the writes on an eventual read.
    assert_eq!(
        reader.enforce_weak(&sub, obj, EnforceAct::Act(Action::Write)),
        Ok(false)
    );
    // A strong read fails closed instead of serving stale state.
    assert!(reader.needs_refresh(latest));
    assert_eq!(
        reader.enforce_strong(Some(latest), &sub, obj, EnforceAct::Act(Action::Write)),
        Err(AccessError::StaleReplica)
    );
    // After catching up from the durable snapshot, it reflects every write.
    reader.reload(writer.snapshot(), latest);
    assert_eq!(
        reader.enforce_strong(Some(latest), &sub, obj, EnforceAct::Act(Action::Write)),
        Ok(true)
    );
    assert_eq!(
        reader.enforce_strong(
            Some(latest),
            &SubjectType::User(12),
            obj,
            EnforceAct::Act(Action::Delete),
        ),
        Ok(true)
    );
}

#[test]
fn strong_read_fails_closed_when_shared_cache_unreachable() {
    let mut ac = AccessControl::new();
    let sub = SubjectType::User(1);
    let obj = ObjectType::Workspace(1);
    assert_eq!(
        ac.enforce_strong(None, &sub, obj, EnforceAct::Act(Action::Read)),
        Err(AccessError::SharedCacheUnreachable)
    );
    assert_eq!(
        ac.enforce_policy_with_consistency(
            &sub,
            obj,
            EnforceAct::Act(Action::Read),
            ConsistencyMode::Eventual,
            None,
        ),
        Ok(false)
    );
}

#[test]
fn threshold_requirements_compare_ranks() {
    let mut ac = AccessControl::new();
    let sub = SubjectType::User(8);
    let obj = ObjectType::Collab(2);
    ac.update_policy(sub, obj, Grant::Role(Role::Member)).unwrap();
    // Member meets a Guest threshold and its own, not an Owner one.
    assert_eq!(ac.enforce_immediately(&sub, obj, EnforceAct::Role(Role::Guest)), Ok(true));
    assert_eq!(ac.enforce_immediately(&sub, obj, EnforceAct::Role(Role::Member)), Ok(true));
    assert_eq!(ac.enforce_immediately(&sub, obj, EnforceAct::Role(Role::Owner)), Ok(false));
    // Cross-kind: Member normalizes to ReadAndWrite.
    assert_eq!(
        ac.enforce_immediately(&sub, obj, EnforceAct::Level(AccessLevel::ReadAndWrite)),
        Ok(true)
    );
    assert_eq!(
        ac.enforce_immediately(&sub, obj, EnforceAct::Level(AccessLevel::FullAccess)),
        Ok(false)
    );
}
