//! The data the library works on: the account/role bindings an identity
//! offers, the accounts bound into a group, and the groups themselves.

use vstd::prelude::*;
use crate::session::Timestamp;

verus! {

/// One account/role binding that the current identity may assume.
#[derive(Debug, PartialEq, Eq)]
pub struct AccountRef {
    pub name: String,
    pub arn: String,
}

/// What an [`AccountRef`] stands for: its name and ARN as text.
pub struct AccountRefView {
    pub name: Seq<char>,
    pub arn: Seq<char>,
}

impl View for AccountRef {
    type V = AccountRefView;

    open spec fn view(&self) -> AccountRefView {
        AccountRefView { name: self.name@, arn: self.arn@ }
    }
}

/// One account bound into a group. `valid_until` is set once a session has
/// been established for it.
#[derive(Debug, PartialEq, Eq)]
pub struct Account {
    pub name: String,
    pub arn: String,
    pub valid_until: Option<Timestamp>,
}

/// What an [`Account`] stands for.
pub struct AccountView {
    pub name: Seq<char>,
    pub arn: Seq<char>,
    pub valid_until: Option<Timestamp>,
}

impl View for Account {
    type V = AccountView;

    open spec fn view(&self) -> AccountView {
        AccountView { name: self.name@, arn: self.arn@, valid_until: self.valid_until }
    }
}

impl Clone for Account {
    fn clone(&self) -> (copy: Account)
        ensures
            copy@ == self@,
    {
        Account {
            name: self.name.clone(),
            arn: self.arn.clone(),
            valid_until: self.valid_until,
        }
    }
}

/// A set of accounts with a session-duration policy. No explicit duration
/// means that sessions get the default lifetime.
#[derive(Debug, PartialEq, Eq)]
pub struct Group {
    pub accounts: Vec<Account>,
    pub session_duration: Option<i64>,
}

/// What a [`Group`] stands for.
pub struct GroupView {
    pub accounts: Seq<AccountView>,
    pub session_duration: Option<i64>,
}

/// The accounts that a sequence of [`AccountRef`] stands for.
pub open spec fn ref_views(refs: Seq<AccountRef>) -> Seq<AccountRefView> {
    refs.map_values(|r: AccountRef| r@)
}

/// The accounts that a sequence of [`Account`] stands for.
pub open spec fn account_views(accounts: Seq<Account>) -> Seq<AccountView> {
    accounts.map_values(|a: Account| a@)
}

/// The texts that a sequence of strings stands for.
pub open spec fn text_views(texts: Seq<String>) -> Seq<Seq<char>> {
    texts.map_values(|t: String| t@)
}

/// The names of a sequence of accounts, in order.
pub open spec fn names_of(accounts: Seq<AccountView>) -> Seq<Seq<char>> {
    accounts.map_values(|a: AccountView| a.name)
}

/// Whether no two accounts of the sequence share a name.
pub open spec fn unique_names(accounts: Seq<AccountView>) -> bool {
    names_of(accounts).no_duplicates()
}

/// Whether none of the accounts holds a session.
pub open spec fn all_fresh(accounts: Seq<AccountView>) -> bool {
    forall|i: int| 0 <= i < accounts.len() ==> (#[trigger] accounts[i]).valid_until.is_none()
}

impl View for Group {
    type V = GroupView;

    open spec fn view(&self) -> GroupView {
        GroupView {
            accounts: account_views(self.accounts@),
            session_duration: self.session_duration,
        }
    }
}

impl Clone for Group {
    fn clone(&self) -> (copy: Group)
        ensures
            copy@ == self@,
    {
        let mut accounts: Vec<Account> = Vec::new();
        let mut i: usize = 0;
        while i < self.accounts.len()
            invariant
                i <= self.accounts.len(),
                accounts@.len() == i,
                forall|j: int| 0 <= j < i ==> (#[trigger] accounts@[j])@ == self.accounts@[j]@,
            decreases self.accounts.len() - i,
        {
            accounts.push(self.accounts[i].clone());
            i += 1;
        }
        assert(account_views(accounts@) =~= account_views(self.accounts@));
        Group { accounts, session_duration: self.session_duration }
    }
}

} // verus!
