//! Resolving a selection against the account/role bindings that an identity
//! offers: which of them a group request picks.

use vstd::prelude::*;
use vstd::string::*;
use crate::account::{
    Account, AccountRef, AccountRefView, AccountView, account_views, all_fresh, ref_views,
    text_views,
};
use crate::text::{ends_with, starts_with};

verus! {

/// How a group request picks accounts by name.
#[derive(Debug, PartialEq, Eq)]
pub enum Selector {
    /// Every account whose name starts with this prefix.
    ByPrefix(String),
    /// Every account whose name is one of these.
    ByNames(Vec<String>),
}

/// What a [`Selector`] stands for: a prefix, or a set of names.
pub enum SelectorView {
    ByPrefix(Seq<char>),
    ByNames(Set<Seq<char>>),
}

impl View for Selector {
    type V = SelectorView;

    open spec fn view(&self) -> SelectorView {
        match self {
            Selector::ByPrefix(prefix) => SelectorView::ByPrefix(prefix@),
            Selector::ByNames(names) => SelectorView::ByNames(text_views(names@).to_set()),
        }
    }
}

/// Why a request's selection options cannot be used.
#[derive(Clone, Copy, Debug, PartialEq, Eq, Structural)]
pub enum UsageError {
    /// Both a prefix and a list of names were given.
    BothSelectors,
    /// Neither a prefix nor a list of names was given.
    NoSelector,
}

/// The selector that a pair of options denotes: exactly one of them must be
/// given.
pub open spec fn selector_of(
    prefix: Option<Seq<char>>,
    names: Option<Set<Seq<char>>>,
) -> Result<SelectorView, UsageError> {
    match (prefix, names) {
        (Some(_), Some(_)) => Err(UsageError::BothSelectors),
        (None, None) => Err(UsageError::NoSelector),
        (Some(p), None) => Ok(SelectorView::ByPrefix(p)),
        (None, Some(n)) => Ok(SelectorView::ByNames(n)),
    }
}

/// The text of an optional string.
pub open spec fn prefix_view(prefix: Option<String>) -> Option<Seq<char>> {
    match prefix {
        Some(p) => Some(p@),
        None => None,
    }
}

/// The set of names in an optional list of strings.
pub open spec fn names_view(names: Option<Vec<String>>) -> Option<Set<Seq<char>>> {
    match names {
        Some(n) => Some(text_views(n@).to_set()),
        None => None,
    }
}

/// What the outcome of building a selector stands for.
pub open spec fn selection_view(r: Result<Selector, UsageError>) -> Result<
    SelectorView,
    UsageError,
> {
    match r {
        Ok(s) => Ok(s@),
        Err(e) => Err(e),
    }
}

impl Selector {
    /// Builds the selector from a request's two options, of which exactly
    /// one must be given.
    pub fn from_options(prefix: Option<String>, names: Option<Vec<String>>) -> (r: Result<
        Selector,
        UsageError,
    >)
        ensures
            selection_view(r) == selector_of(prefix_view(prefix), names_view(names)),
    {
        match (prefix, names) {
            (Some(_), Some(_)) => Err(UsageError::BothSelectors),
            (None, None) => Err(UsageError::NoSelector),
            (Some(p), None) => Ok(Selector::ByPrefix(p)),
            (None, Some(n)) => Ok(Selector::ByNames(n)),
        }
    }
}

impl UsageError {
    /// The message shown to the user for this error.
    pub fn message(&self) -> (text: &'static str)
        ensures
            text@ == match self {
                UsageError::BothSelectors => "Cannot specify both --accounts and --prefix"@,
                UsageError::NoSelector => "Must specify either --prefix or --accounts flag"@,
            },
    {
        match self {
            UsageError::BothSelectors => "Cannot specify both --accounts and --prefix",
            UsageError::NoSelector => "Must specify either --prefix or --accounts flag",
        }
    }
}

/// The ARN suffix that marks a role: `role/` followed by the role's name.
pub open spec fn role_suffix(role: Seq<char>) -> Seq<char> {
    seq!['r', 'o', 'l', 'e', '/'] + role
}

/// Whether an ARN names the given role.
pub open spec fn has_role(arn: Seq<char>, role: Seq<char>) -> bool {
    role_suffix(role).is_suffix_of(arn)
}

/// Whether a selector picks an account name.
pub open spec fn selects(selector: SelectorView, name: Seq<char>) -> bool {
    match selector {
        SelectorView::ByPrefix(prefix) => prefix.is_prefix_of(name),
        SelectorView::ByNames(names) => names.contains(name),
    }
}

/// Whether a binding is picked: its name by the selector, its ARN by the role.
pub open spec fn eligible(r: AccountRefView, selector: SelectorView, role: Seq<char>) -> bool {
    selects(selector, r.name) && has_role(r.arn, role)
}

/// [`eligible`] as a predicate on bindings.
pub open spec fn eligibility(selector: SelectorView, role: Seq<char>) -> spec_fn(
    AccountRefView,
) -> bool {
    |r: AccountRefView| eligible(r, selector, role)
}

/// The group account that a binding becomes: same name and ARN, no session.
pub open spec fn fresh_account(r: AccountRefView) -> AccountView {
    AccountView { name: r.name, arn: r.arn, valid_until: None }
}

/// The accounts that a selection yields: the eligible bindings, in the order
/// in which they are offered and as often as they are offered, each as a
/// fresh account.
pub open spec fn matching(
    available: Seq<AccountRefView>,
    selector: SelectorView,
    role: Seq<char>,
) -> Seq<AccountView> {
    available.filter(eligibility(selector, role)).map_values(
        |r: AccountRefView| fresh_account(r),
    )
}

/// What one more offered binding adds to the accounts matched so far.
pub proof fn lemma_matching_push(
    available: Seq<AccountRefView>,
    next: AccountRefView,
    selector: SelectorView,
    role: Seq<char>,
)
    ensures
        matching(available.push(next), selector, role) == if eligible(next, selector, role) {
            matching(available, selector, role).push(fresh_account(next))
        } else {
            matching(available, selector, role)
        },
{
    let pred = eligibility(selector, role);
    let fresh = |r: AccountRefView| fresh_account(r);
    available.lemma_filter_push(next, pred);
    if eligible(next, selector, role) {
        available.filter(pred).lemma_push_map_commute(fresh, next);
    }
}

/// Every matched account comes from an eligible binding: the selector picks
/// its name, its ARN names the requested role, and it holds no session.
pub proof fn lemma_matched_are_eligible(
    available: Seq<AccountRefView>,
    selector: SelectorView,
    role: Seq<char>,
)
    ensures
        forall|i: int|
            0 <= i < matching(available, selector, role).len() ==> {
                let account = #[trigger] matching(available, selector, role)[i];
                &&& selects(selector, account.name)
                &&& has_role(account.arn, role)
                &&& account.valid_until.is_none()
                &&& available.contains(AccountRefView { name: account.name, arn: account.arn })
            },
        all_fresh(matching(available, selector, role)),
{
    let pred = eligibility(selector, role);
    let kept = available.filter(pred);
    assert forall|i: int| 0 <= i < matching(available, selector, role).len() implies {
        let account = #[trigger] matching(available, selector, role)[i];
        &&& selects(selector, account.name)
        &&& has_role(account.arn, role)
        &&& account.valid_until.is_none()
        &&& available.contains(AccountRefView { name: account.name, arn: account.arn })
    } by {
        available.lemma_filter_pred(pred, i);
        assert(kept.contains(kept[i]));
        available.lemma_filter_contains_rev(pred, kept[i]);
    }
}

/// Every account matched for a role has an ARN that ends in `role/` and the
/// role's name.
pub proof fn lemma_matched_have_role(
    available: Seq<AccountRefView>,
    selector: SelectorView,
    role: Seq<char>,
)
    ensures
        forall|i: int|
            0 <= i < matching(available, selector, role).len() ==> role_suffix(role).is_suffix_of(
                (#[trigger] matching(available, selector, role)[i]).arn,
            ),
{
    lemma_matched_are_eligible(available, selector, role);
}

/// Equality with `x`, as a predicate.
pub open spec fn is_value<A>(x: A) -> spec_fn(A) -> bool {
    |y: A| y == x
}

/// How often `x` occurs in `s`.
pub open spec fn occurrences<A>(s: Seq<A>, x: A) -> nat {
    s.filter(is_value(x)).len()
}

/// What one more element adds to the occurrences of `x`.
proof fn lemma_occurrences_push<A>(s: Seq<A>, next: A, x: A)
    ensures
        occurrences(s.push(next), x) == occurrences(s, x) + if next == x {
            1nat
        } else {
            0nat
        },
{
    s.lemma_filter_push(next, is_value(x));
}

/// A binding that the selection picks is matched as often as it is offered;
/// one that it does not pick is not matched at all.
pub proof fn lemma_matched_occurrences(
    available: Seq<AccountRefView>,
    selector: SelectorView,
    role: Seq<char>,
    r: AccountRefView,
)
    ensures
        occurrences(matching(available, selector, role), fresh_account(r)) == if eligible(
            r,
            selector,
            role,
        ) {
            occurrences(available, r)
        } else {
            0
        },
    decreases available.len(),
{
    reveal(Seq::filter);
    if available.len() == 0 {
        assert(matching(available, selector, role) =~= Seq::empty());
    } else {
        let init = available.drop_last();
        let last = available.last();
        assert(available =~= init.push(last));
        lemma_matched_occurrences(init, selector, role, r);
        lemma_matching_push(init, last, selector, role);
        lemma_occurrences_push(init, last, r);
        if eligible(last, selector, role) {
            lemma_occurrences_push(matching(init, selector, role), fresh_account(last), fresh_account(r));
        }
    }
}

/// With a prefix as the selector, every matched account's name starts with
/// the prefix, and every offered binding whose name starts with the prefix
/// and whose ARN names the role is matched once for each time it is offered.
pub proof fn lemma_prefix_matching(
    available: Seq<AccountRefView>,
    prefix: Seq<char>,
    role: Seq<char>,
)
    ensures
        forall|i: int|
            0 <= i < matching(available, SelectorView::ByPrefix(prefix), role).len()
                ==> prefix.is_prefix_of(
                (#[trigger] matching(available, SelectorView::ByPrefix(prefix), role)[i]).name,
            ),
        forall|r: AccountRefView|
            prefix.is_prefix_of(r.name) && has_role(r.arn, role) ==> occurrences(
                matching(available, SelectorView::ByPrefix(prefix), role),
                #[trigger] fresh_account(r),
            ) == occurrences(available, r),
{
    let selector = SelectorView::ByPrefix(prefix);
    lemma_matched_are_eligible(available, selector, role);
    assert forall|r: AccountRefView|
        prefix.is_prefix_of(r.name) && has_role(r.arn, role) implies occurrences(
        matching(available, selector, role),
        #[trigger] fresh_account(r),
    ) == occurrences(available, r) by {
        lemma_matched_occurrences(available, selector, role, r);
    }
}

/// Whether `name` is one of `names`.
fn contains_name(names: &Vec<String>, name: &String) -> (found: bool)
    ensures
        found == text_views(names@).to_set().contains(name@),
{
    let mut i: usize = 0;
    while i < names.len()
        invariant
            i <= names.len(),
            forall|j: int| 0 <= j < i ==> names@[j]@ != name@,
        decreases names.len() - i,
    {
        if names[i] == *name {
            assert(text_views(names@)[i as int] == name@);
            return true;
        }
        i += 1;
    }
    false
}

/// Whether the selector picks `name`.
fn selects_name(selector: &Selector, name: &String) -> (picked: bool)
    ensures
        picked == selects(selector@, name@),
{
    match selector {
        Selector::ByPrefix(prefix) => starts_with(name.as_str(), prefix.as_str()),
        Selector::ByNames(names) => contains_name(names, name),
    }
}

/// The accounts that `selector` picks among `available` for the role named
/// `role`, each without a session. The order of `available` is kept, and a
/// binding that is offered twice is returned twice.
pub fn match_accounts(available: &Vec<AccountRef>, selector: &Selector, role: &str) -> (matched:
    Vec<Account>)
    ensures
        account_views(matched@) == matching(ref_views(available@), selector@, role@),
{
    proof {
        reveal_strlit("role/");
    }
    let mut suffix = String::from_str("role/");
    suffix.append(role);
    assert(suffix@ =~= role_suffix(role@));
    let mut matched: Vec<Account> = Vec::new();
    let mut i: usize = 0;
    assert(ref_views(available@).take(0) =~= Seq::empty());
    while i < available.len()
        invariant
            i <= available.len(),
            suffix@ == role_suffix(role@),
            account_views(matched@) =~= matching(
                ref_views(available@).take(i as int),
                selector@,
                role@,
            ),
        decreases available.len() - i,
    {
        let offered = &available[i];
        proof {
            let refs = ref_views(available@);
            refs.lemma_take_succ_push(i as int);
            lemma_matching_push(refs.take(i as int), offered@, selector@, role@);
        }
        if selects_name(selector, &offered.name) && ends_with(
            offered.arn.as_str(),
            suffix.as_str(),
        ) {
            let account = Account {
                name: offered.name.clone(),
                arn: offered.arn.clone(),
                valid_until: None,
            };
            proof {
                matched@.lemma_push_map_commute(|a: Account| a@, account);
            }
            matched.push(account);
        }
        i += 1;
    }
    assert(ref_views(available@).take(i as int) =~= ref_views(available@));
    matched
}

/// The accounts among `accounts` whose name starts with `prefix` and whose
/// ARN names the role `role_name`.
pub fn get_accounts_prefixed_by(accounts: &Vec<AccountRef>, prefix: &str, role_name: &str) -> (matched:
    Vec<Account>)
    ensures
        account_views(matched@) == matching(
            ref_views(accounts@),
            SelectorView::ByPrefix(prefix@),
            role_name@,
        ),
{
    let selector = Selector::ByPrefix(String::from_str(prefix));
    match_accounts(accounts, &selector, role_name)
}

/// The accounts among `accounts` whose name is one of `names` and whose ARN
/// names the role `role_name`.
pub fn get_accounts_by_names(accounts: &Vec<AccountRef>, names: Vec<String>, role_name: &str) -> (matched:
    Vec<Account>)
    ensures
        account_views(matched@) == matching(
            ref_views(accounts@),
            SelectorView::ByNames(text_views(names@).to_set()),
            role_name@,
        ),
{
    let selector = Selector::ByNames(names);
    match_accounts(accounts, &selector, role_name)
}

} // verus!
