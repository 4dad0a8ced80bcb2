//! The three commands on the stored groups: listing them, deleting one, and
//! adding the accounts that a selection picks to one.

use vstd::prelude::*;
use crate::account::{AccountRef, AccountView, GroupView, ref_views};
use crate::matcher::{
    Selector, SelectorView, UsageError, match_accounts, matching, names_view, prefix_view,
    selector_of,
};
use crate::merger::{MergeBranch, branch_taken};
use crate::report::{GroupReport, list, listing, report_views};
use crate::session::Timestamp;
use crate::store::{DeleteOutcome, GroupStore, after_add, after_delete, delete, group_names};

verus! {

/// What the user asks for.
#[derive(Debug, PartialEq, Eq)]
pub enum Request {
    /// List the groups with the state of their sessions.
    List,
    /// Delete the group `name`.
    Delete { name: String },
    /// Put into the group `name` the accounts that the selection picks among
    /// `available`, the bindings that the identity offers, for the role
    /// `role`. Exactly one of `prefix` and `accounts` must be given.
    Add {
        name: String,
        role: String,
        prefix: Option<String>,
        accounts: Option<Vec<String>>,
        session_duration: Option<i64>,
        append: bool,
        available: Vec<AccountRef>,
    },
}

/// How adding to a group ended.
#[derive(Clone, Copy, Debug, PartialEq, Eq, Structural)]
pub enum AddOutcome {
    /// The selection options were unusable; nothing was changed.
    Rejected(UsageError),
    /// The selection picked no account; nothing was changed.
    NothingMatched,
    /// The picked accounts were merged into the group.
    Merged(MergeBranch),
}

/// How a command ended.
#[derive(Debug, PartialEq, Eq)]
pub enum Outcome {
    /// The listing of the groups.
    Listed(Vec<GroupReport>),
    /// How the deletion ended.
    Deletion(DeleteOutcome),
    /// How the addition ended.
    Addition(AddOutcome),
}

/// How adding to the group `name` ends: rejected where the options give no
/// selector, without a match where the selector picks nothing, else merged.
pub open spec fn add_outcome(
    entries: Seq<(Seq<char>, GroupView)>,
    name: Seq<char>,
    selection: Result<SelectorView, UsageError>,
    available: Seq<crate::account::AccountRefView>,
    role: Seq<char>,
    append_only: bool,
) -> AddOutcome {
    match selection {
        Err(e) => AddOutcome::Rejected(e),
        Ok(selector) => if matching(available, selector, role).len() == 0 {
            AddOutcome::NothingMatched
        } else {
            AddOutcome::Merged(branch_taken(group_names(entries).contains(name), append_only))
        },
    }
}

/// The entries after adding to the group `name`: changed only where the
/// options give a selector and the selector picks at least one account.
pub open spec fn after_add_group(
    entries: Seq<(Seq<char>, GroupView)>,
    name: Seq<char>,
    selection: Result<SelectorView, UsageError>,
    available: Seq<crate::account::AccountRefView>,
    role: Seq<char>,
    session_duration: Option<i64>,
    append_only: bool,
) -> Seq<(Seq<char>, GroupView)> {
    match selection {
        Err(_) => entries,
        Ok(selector) => {
            let candidates: Seq<AccountView> = matching(available, selector, role);
            if candidates.len() == 0 {
                entries
            } else {
                after_add(entries, name, session_duration, candidates, append_only)
            }
        },
    }
}

/// Resolves the selection given by `prefix` and `accounts` against
/// `available` for the role `role`, and merges the accounts it picks into
/// the group `name`.
///
/// The store is changed only where exactly one of `prefix` and `accounts`
/// is given and at least one account is picked: with both options or with
/// neither the request is rejected, and a selection that picks nothing is
/// reported as such and never empties or creates a group.
pub fn add_group(
    store: &mut GroupStore,
    name: &str,
    role: &str,
    prefix: Option<String>,
    accounts: Option<Vec<String>>,
    session_duration: Option<i64>,
    append_only: bool,
    available: &Vec<AccountRef>,
) -> (outcome: AddOutcome)
    requires
        old(store).wf(),
    ensures
        final(store).wf(),
        outcome == add_outcome(
            old(store)@,
            name@,
            selector_of(prefix_view(prefix), names_view(accounts)),
            ref_views(available@),
            role@,
            append_only,
        ),
        final(store)@ == after_add_group(
            old(store)@,
            name@,
            selector_of(prefix_view(prefix), names_view(accounts)),
            ref_views(available@),
            role@,
            session_duration,
            append_only,
        ),
{
    match Selector::from_options(prefix, accounts) {
        Err(e) => AddOutcome::Rejected(e),
        Ok(selector) => {
            let candidates = match_accounts(available, &selector, role);
            if candidates.len() == 0 {
                AddOutcome::NothingMatched
            } else {
                AddOutcome::Merged(
                    crate::store::add(store, name, session_duration, candidates, append_only),
                )
            }
        },
    }
}

/// A request with both selection options, or with neither, leaves the store
/// as it is, whatever else it holds.
pub proof fn lemma_unusable_selection_changes_nothing(
    entries: Seq<(Seq<char>, GroupView)>,
    name: Seq<char>,
    prefix: Option<Seq<char>>,
    names: Option<Set<Seq<char>>>,
    available: Seq<crate::account::AccountRefView>,
    role: Seq<char>,
    session_duration: Option<i64>,
    append_only: bool,
)
    requires
        prefix.is_some() == names.is_some(),
    ensures
        after_add_group(
            entries,
            name,
            selector_of(prefix, names),
            available,
            role,
            session_duration,
            append_only,
        ) == entries,
        add_outcome(entries, name, selector_of(prefix, names), available, role, append_only)
            == AddOutcome::Rejected(
            if prefix.is_some() {
                UsageError::BothSelectors
            } else {
                UsageError::NoSelector
            },
        ),
{
}

/// Carries out `request` on the store, as seen at `now`.
///
/// Listing changes nothing and reports on every group. Deleting removes the
/// named group where it exists and changes nothing where it does not.
/// Adding is [`add_group`].
pub fn command(store: &mut GroupStore, request: Request, now: Timestamp) -> (outcome: Outcome)
    requires
        old(store).wf(),
    ensures
        final(store).wf(),
        match request {
            Request::List => {
                &&& final(store)@ == old(store)@
                &&& outcome matches Outcome::Listed(reports)
                &&& report_views(reports@) == listing(old(store)@, now)
            },
            Request::Delete { name } => {
                &&& final(store)@ == after_delete(old(store)@, name@)
                &&& outcome == Outcome::Deletion(
                    if group_names(old(store)@).contains(name@) {
                        DeleteOutcome::Deleted
                    } else {
                        DeleteOutcome::NoSuchGroup
                    },
                )
            },
            Request::Add { name, role, prefix, accounts, session_duration, append, available } => {
                let selection = selector_of(prefix_view(prefix), names_view(accounts));
                &&& final(store)@ == after_add_group(
                    old(store)@,
                    name@,
                    selection,
                    ref_views(available@),
                    role@,
                    session_duration,
                    append,
                )
                &&& outcome == Outcome::Addition(
                    add_outcome(
                        old(store)@,
                        name@,
                        selection,
                        ref_views(available@),
                        role@,
                        append,
                    ),
                )
            },
        },
{
    match request {
        Request::List => Outcome::Listed(list(store, now)),
        Request::Delete { name } => Outcome::Deletion(delete(store, name.as_str())),
        Request::Add { name, role, prefix, accounts, session_duration, append, available } => {
            Outcome::Addition(
                add_group(
                    store,
                    name.as_str(),
                    role.as_str(),
                    prefix,
                    accounts,
                    session_duration,
                    append,
                    &available,
                ),
            )
        },
    }
}

} // verus!
