use account_groups::account::{Account, Group};
use account_groups::merger::{merge, MergeBranch};
use account_groups::session::Timestamp;

fn fresh(name: &str) -> Account {
    Account { name: name.to_string(), arn: format!("arn:{}:role/R", name), valid_until: None }
}

fn live(name: &str, secs: i64) -> Account {
    Account {
        name: name.to_string(),
        arn: format!("arn:{}:role/R", name),
        valid_until: Timestamp::new(secs, 0),
    }
}

#[test]
fn absent_group_is_created_from_the_candidates() {
    let (group, branch) = merge(None, vec![fresh("a"), fresh("b")], Some(3600), false);
    assert_eq!(branch, MergeBranch::Created);
    assert_eq!(group, Group { accounts: vec![fresh("a"), fresh("b")], session_duration: Some(3600) });
}

#[test]
fn absent_group_is_created_in_append_mode_too() {
    let (group, branch) = merge(None, vec![fresh("a")], None, true);
    assert_eq!(branch, MergeBranch::Created);
    assert_eq!(group, Group { accounts: vec![fresh("a")], session_duration: None });
}

#[test]
fn creation_keeps_duplicate_candidates() {
    let (group, _) = merge(None, vec![fresh("a"), fresh("a")], None, true);
    assert_eq!(group.accounts, vec![fresh("a"), fresh("a")]);
}

#[test]
fn replace_drops_existing_accounts_and_their_sessions() {
    let existing = Group { accounts: vec![live("a", 1000), live("z", 2000)], session_duration: Some(900) };
    let (group, branch) = merge(Some(existing), vec![fresh("a"), fresh("b")], None, false);
    assert_eq!(branch, MergeBranch::Replaced);
    assert_eq!(group, Group { accounts: vec![fresh("a"), fresh("b")], session_duration: None });
}

#[test]
fn append_keeps_existing_and_adds_new_names() {
    let existing = Group { accounts: vec![live("a", 1000), fresh("b")], session_duration: None };
    let (group, branch) =
        merge(Some(existing), vec![fresh("c"), fresh("a"), fresh("d"), fresh("b")], Some(7200), true);
    assert_eq!(branch, MergeBranch::Appended);
    assert_eq!(
        group,
        Group {
            accounts: vec![live("a", 1000), fresh("b"), fresh("c"), fresh("d")],
            session_duration: Some(7200),
        }
    );
}

#[test]
fn append_compares_names_not_arns() {
    let existing = Group { accounts: vec![fresh("a")], session_duration: None };
    let other_arn = Account { name: "a".to_string(), arn: "different".to_string(), valid_until: None };
    let same_arn = Account { name: "b".to_string(), arn: fresh("a").arn, valid_until: None };
    let (group, _) = merge(Some(existing), vec![other_arn, same_arn.clone()], None, true);
    assert_eq!(group.accounts, vec![fresh("a"), same_arn]);
}

#[test]
fn append_checks_candidates_against_existing_accounts_only() {
    let existing = Group { accounts: vec![fresh("a")], session_duration: None };
    let (group, _) = merge(Some(existing), vec![fresh("b"), fresh("b")], None, true);
    assert_eq!(group.accounts, vec![fresh("a"), fresh("b"), fresh("b")]);
}

#[test]
fn appending_twice_is_appending_once() {
    let existing = Group { accounts: vec![live("a", 1000)], session_duration: None };
    let candidates = vec![fresh("a"), fresh("b"), fresh("c")];
    let (once, _) = merge(Some(existing), candidates.clone(), Some(60), true);
    let (twice, branch) = merge(Some(once.clone()), candidates, Some(60), true);
    assert_eq!(branch, MergeBranch::Appended);
    assert_eq!(twice, once);
    assert_eq!(twice.accounts, vec![live("a", 1000), fresh("b"), fresh("c")]);
}

#[test]
fn append_with_no_candidates_keeps_the_accounts() {
    let existing = Group { accounts: vec![live("a", 1000)], session_duration: Some(1) };
    let (group, _) = merge(Some(existing), Vec::new(), None, true);
    assert_eq!(group, Group { accounts: vec![live("a", 1000)], session_duration: None });
}

#[test]
fn session_duration_is_overwritten_in_every_mode() {
    let existing = || Some(Group { accounts: vec![fresh("a")], session_duration: Some(900) });
    assert_eq!(merge(existing(), vec![fresh("b")], None, true).0.session_duration, None);
    assert_eq!(merge(existing(), vec![fresh("b")], None, false).0.session_duration, None);
    assert_eq!(merge(existing(), vec![fresh("b")], Some(-5), true).0.session_duration, Some(-5));
    assert_eq!(merge(None, vec![fresh("b")], Some(43200), false).0.session_duration, Some(43200));
}

#[test]
fn branches_are_announced() {
    assert_eq!(MergeBranch::Created.announce("prod"), "Adding group prod");
    assert_eq!(MergeBranch::Replaced.announce("prod"), "Group prod exists, replacing accounts");
    assert_eq!(MergeBranch::Appended.announce("prod"), "Group prod exists, appending new accounts");
}

#[test]
fn clones_are_equal() {
    let group = Group { accounts: vec![live("a", 5), fresh("b")], session_duration: Some(3) };
    assert_eq!(group.clone(), group);
    assert_eq!(live("a", 5).clone(), live("a", 5));
}
