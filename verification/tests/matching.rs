use account_groups::account::{Account, AccountRef};
use account_groups::matcher::{
    get_accounts_by_names, get_accounts_prefixed_by, match_accounts, Selector, UsageError,
};

fn offered(name: &str, arn: &str) -> AccountRef {
    AccountRef { name: name.to_string(), arn: arn.to_string() }
}

fn fresh(name: &str, arn: &str) -> Account {
    Account { name: name.to_string(), arn: arn.to_string(), valid_until: None }
}

fn sample() -> Vec<AccountRef> {
    vec![
        offered("app-a", "arn:aws:iam::1:role/Admin"),
        offered("app-b", "arn:aws:iam::2:role/Other"),
        offered("other", "arn:aws:iam::3:role/Admin"),
        offered("app-c", "arn:aws:iam::4:role/Admin"),
    ]
}

#[test]
fn prefix_keeps_matching_names_with_the_role() {
    let matched = get_accounts_prefixed_by(&sample(), "app-", "Admin");
    assert_eq!(
        matched,
        vec![
            fresh("app-a", "arn:aws:iam::1:role/Admin"),
            fresh("app-c", "arn:aws:iam::4:role/Admin"),
        ]
    );
}

#[test]
fn prefix_is_not_matched_inside_or_at_the_end_of_a_name() {
    let available = vec![
        offered("my-app-a", "x:role/Admin"),
        offered("a-app-", "x:role/Admin"),
        offered("app", "x:role/Admin"),
        offered("app-", "x:role/Admin"),
    ];
    let matched = get_accounts_prefixed_by(&available, "app-", "Admin");
    assert_eq!(matched, vec![fresh("app-", "x:role/Admin")]);
}

#[test]
fn empty_prefix_selects_every_name() {
    let matched = get_accounts_prefixed_by(&sample(), "", "Admin");
    assert_eq!(matched.len(), 3);
    assert_eq!(matched[1].name, "other");
}

#[test]
fn role_must_end_the_arn() {
    let available = vec![
        offered("a", "arn:role/Admin"),
        offered("b", "arn:role/Admin/extra"),
        offered("c", "arn:role/SuperAdmin"),
        offered("d", "arn:xrole/Admin"),
        offered("e", "role/Admin"),
        offered("f", "ole/Admin"),
        offered("g", "arn:role/admin"),
    ];
    let matched = get_accounts_prefixed_by(&available, "", "Admin");
    let names: Vec<&str> = matched.iter().map(|a| a.name.as_str()).collect();
    assert_eq!(names, vec!["a", "d", "e"]);
    for account in &matched {
        assert!(account.arn.ends_with("role/Admin"));
    }
}

#[test]
fn names_keep_listed_accounts_with_the_role() {
    let names = vec!["other".to_string(), "app-b".to_string(), "missing".to_string()];
    let matched = get_accounts_by_names(&sample(), names, "Admin");
    assert_eq!(matched, vec![fresh("other", "arn:aws:iam::3:role/Admin")]);
}

#[test]
fn names_must_match_whole_names() {
    let names = vec!["app".to_string(), "app-a-long".to_string()];
    assert_eq!(get_accounts_by_names(&sample(), names, "Admin"), vec![]);
}

#[test]
fn output_follows_input_order_and_keeps_duplicates() {
    let available = vec![
        offered("b", "1:role/R"),
        offered("a", "2:role/R"),
        offered("b", "1:role/R"),
        offered("b", "3:role/R"),
    ];
    let matched = match_accounts(&available, &Selector::ByPrefix("".to_string()), "R");
    assert_eq!(
        matched,
        vec![fresh("b", "1:role/R"), fresh("a", "2:role/R"), fresh("b", "1:role/R"), fresh(
            "b",
            "3:role/R"
        )]
    );
    let by_name = match_accounts(&available, &Selector::ByNames(vec!["b".to_string()]), "R");
    assert_eq!(by_name.len(), 3);
}

#[test]
fn no_match_is_an_empty_result() {
    assert_eq!(get_accounts_prefixed_by(&sample(), "zzz", "Admin"), vec![]);
    assert_eq!(get_accounts_prefixed_by(&sample(), "app-", "Nobody"), vec![]);
    assert_eq!(get_accounts_prefixed_by(&Vec::new(), "app-", "Admin"), vec![]);
    assert_eq!(get_accounts_by_names(&sample(), Vec::new(), "Admin"), vec![]);
}

#[test]
fn matched_accounts_hold_no_session() {
    for account in get_accounts_prefixed_by(&sample(), "", "Admin") {
        assert_eq!(account.valid_until, None);
    }
}

#[test]
fn names_outside_ascii_are_compared_by_character() {
    let available = vec![offered("müll-1", "x:role/Rôle"), offered("mull-2", "x:role/Rôle")];
    let matched = get_accounts_prefixed_by(&available, "mü", "Rôle");
    assert_eq!(matched, vec![fresh("müll-1", "x:role/Rôle")]);
}

#[test]
fn selector_takes_exactly_one_option() {
    assert_eq!(
        Selector::from_options(Some("app-".to_string()), None),
        Ok(Selector::ByPrefix("app-".to_string()))
    );
    assert_eq!(
        Selector::from_options(None, Some(vec!["a".to_string()])),
        Ok(Selector::ByNames(vec!["a".to_string()]))
    );
    assert_eq!(
        Selector::from_options(Some("app-".to_string()), Some(vec!["a".to_string()])),
        Err(UsageError::BothSelectors)
    );
    assert_eq!(Selector::from_options(None, None), Err(UsageError::NoSelector));
}

#[test]
fn usage_errors_have_their_messages() {
    assert_eq!(UsageError::BothSelectors.message(), "Cannot specify both --accounts and --prefix");
    assert_eq!(UsageError::NoSelector.message(), "Must specify either --prefix or --accounts flag");
}
