//! The listing of the stored groups: for each group its session-duration
//! policy and, for each of its accounts, the state of the session.

use vstd::prelude::*;
use crate::account::{AccountView, Group, GroupView};
use crate::session::{SessionState, Timestamp, classify, policy, policy_text, session_state};
use crate::store::GroupStore;

verus! {

/// What a listing says of one account.
#[derive(Debug, PartialEq, Eq)]
pub struct AccountReport {
    pub name: String,
    pub arn: String,
    pub state: SessionState,
}

/// What an [`AccountReport`] stands for.
pub struct AccountReportView {
    pub name: Seq<char>,
    pub arn: Seq<char>,
    pub state: SessionState,
}

impl View for AccountReport {
    type V = AccountReportView;

    open spec fn view(&self) -> AccountReportView {
        AccountReportView { name: self.name@, arn: self.arn@, state: self.state }
    }
}

/// What a listing says of one group.
#[derive(Debug, PartialEq, Eq)]
pub struct GroupReport {
    pub name: String,
    pub policy: String,
    pub accounts: Vec<AccountReport>,
}

/// What a [`GroupReport`] stands for.
pub struct GroupReportView {
    pub name: Seq<char>,
    pub policy: Seq<char>,
    pub accounts: Seq<AccountReportView>,
}

impl View for GroupReport {
    type V = GroupReportView;

    open spec fn view(&self) -> GroupReportView {
        GroupReportView {
            name: self.name@,
            policy: self.policy@,
            accounts: self.accounts@.map_values(|a: AccountReport| a@),
        }
    }
}

/// What a sequence of [`GroupReport`] stands for.
pub open spec fn report_views(reports: Seq<GroupReport>) -> Seq<GroupReportView> {
    reports.map_values(|r: GroupReport| r@)
}

/// The report on one account at `now`.
pub open spec fn account_report(account: AccountView, now: Timestamp) -> AccountReportView {
    AccountReportView {
        name: account.name,
        arn: account.arn,
        state: session_state(account.valid_until, now),
    }
}

/// The report on one group at `now`: its policy and a report on each of its
/// accounts, in their order.
pub open spec fn group_report(name: Seq<char>, group: GroupView, now: Timestamp) -> GroupReportView {
    GroupReportView {
        name,
        policy: policy_text(group.session_duration),
        accounts: group.accounts.map_values(|a: AccountView| account_report(a, now)),
    }
}

/// The listing of all groups at `now`, in their order.
pub open spec fn listing(entries: Seq<(Seq<char>, GroupView)>, now: Timestamp) -> Seq<
    GroupReportView,
> {
    entries.map_values(|e: (Seq<char>, GroupView)| group_report(e.0, e.1, now))
}

/// Reports on the group `group`, stored under `name`, as seen at `now`.
pub fn report_group(name: &String, group: &Group, now: Timestamp) -> (report: GroupReport)
    ensures
        report@ == group_report(name@, group@, now),
{
    let mut accounts: Vec<AccountReport> = Vec::new();
    let mut i: usize = 0;
    while i < group.accounts.len()
        invariant
            i <= group.accounts.len(),
            accounts@.len() == i,
            forall|j: int|
                0 <= j < i ==> (#[trigger] accounts@[j])@ == account_report(
                    group.accounts@[j]@,
                    now,
                ),
        decreases group.accounts.len() - i,
    {
        let account = &group.accounts[i];
        accounts.push(
            AccountReport {
                name: account.name.clone(),
                arn: account.arn.clone(),
                state: classify(account, now),
            },
        );
        i += 1;
    }
    let report = GroupReport { name: name.clone(), policy: policy(group), accounts };
    assert(report@.accounts =~= group_report(name@, group@, now).accounts);
    report
}

/// Lists the groups of the store as seen at `now`: one report for each
/// group, in the store's order.
pub fn list(store: &GroupStore, now: Timestamp) -> (reports: Vec<GroupReport>)
    ensures
        report_views(reports@) == listing(store@, now),
{
    let entries = store.entries();
    let mut reports: Vec<GroupReport> = Vec::new();
    let mut i: usize = 0;
    while i < entries.len()
        invariant
            i <= entries.len(),
            reports@.len() == i,
            crate::store::entry_views(entries@) == store@,
            forall|j: int|
                0 <= j < i ==> (#[trigger] reports@[j])@ == group_report(
                    entries@[j].0@,
                    entries@[j].1@,
                    now,
                ),
        decreases entries.len() - i,
    {
        reports.push(report_group(&entries[i].0, &entries[i].1, now));
        i += 1;
    }
    assert(report_views(reports@) =~= listing(store@, now));
    reports
}

} // verus!
