//! Folding freshly matched accounts into a group: creating it, replacing its
//! accounts, or appending the accounts it does not hold yet.

use vstd::prelude::*;
use vstd::string::*;
use crate::account::{
    Account, AccountView, Group, GroupView, account_views, all_fresh, names_of, unique_names,
};

verus! {

/// Which way a merge went.
#[derive(Clone, Copy, Debug, PartialEq, Eq, Structural)]
pub enum MergeBranch {
    /// There was no such group: it was created.
    Created,
    /// The group existed and its accounts were replaced.
    Replaced,
    /// The group existed and the new accounts were appended.
    Appended,
}

/// The branch that a merge takes.
pub open spec fn branch_taken(exists: bool, append_only: bool) -> MergeBranch {
    if !exists {
        MergeBranch::Created
    } else if append_only {
        MergeBranch::Appended
    } else {
        MergeBranch::Replaced
    }
}

impl MergeBranch {
    /// How the branch is announced for the group `name`.
    pub open spec fn announcement(self, name: Seq<char>) -> Seq<char> {
        match self {
            MergeBranch::Created => "Adding group "@ + name,
            MergeBranch::Replaced => "Group "@ + name + " exists, replacing accounts"@,
            MergeBranch::Appended => "Group "@ + name + " exists, appending new accounts"@,
        }
    }

    /// The line that tells the user what is done to the group `name`.
    pub fn announce(&self, name: &str) -> (text: String)
        ensures
            text@ == self.announcement(name@),
    {
        match self {
            MergeBranch::Created => {
                let mut text = String::from_str("Adding group ");
                text.append(name);
                text
            },
            MergeBranch::Replaced => {
                let mut text = String::from_str("Group ");
                text.append(name);
                text.append(" exists, replacing accounts");
                text
            },
            MergeBranch::Appended => {
                let mut text = String::from_str("Group ");
                text.append(name);
                text.append(" exists, appending new accounts");
                text
            },
        }
    }
}

/// Whether an account's name is none of the names of `existing`, as a
/// predicate on accounts.
pub open spec fn is_new_to(existing: Seq<AccountView>) -> spec_fn(AccountView) -> bool {
    |c: AccountView| !names_of(existing).contains(c.name)
}

/// Appending: the existing accounts, untouched, followed by the candidates
/// whose name no existing account has.
pub open spec fn appended(existing: Seq<AccountView>, candidates: Seq<AccountView>) -> Seq<
    AccountView,
> {
    existing + candidates.filter(is_new_to(existing))
}

/// The group that a merge yields. Without an existing group, and when
/// replacing, its accounts are the candidates as given; when appending, they
/// are [`appended`]. The session duration is the given one in every case.
pub open spec fn merged(
    existing: Option<GroupView>,
    candidates: Seq<AccountView>,
    session_duration: Option<i64>,
    append_only: bool,
) -> GroupView {
    GroupView {
        accounts: match existing {
            Some(group) if append_only => appended(group.accounts, candidates),
            _ => candidates,
        },
        session_duration,
    }
}

/// What an optional group stands for.
pub open spec fn group_view(group: Option<Group>) -> Option<GroupView> {
    match group {
        Some(g) => Some(g@),
        None => None,
    }
}

/// What one more candidate adds to an append.
pub proof fn lemma_appended_push(
    existing: Seq<AccountView>,
    candidates: Seq<AccountView>,
    next: AccountView,
)
    ensures
        appended(existing, candidates.push(next)) == if names_of(existing).contains(next.name) {
            appended(existing, candidates)
        } else {
            appended(existing, candidates).push(next)
        },
{
    candidates.lemma_filter_push(next, is_new_to(existing));
    if !names_of(existing).contains(next.name) {
        assert(appended(existing, candidates.push(next)) =~= appended(existing, candidates).push(
            next,
        ));
    }
}

/// Whether one of the first `limit` accounts has the name `name`.
fn has_name(accounts: &Vec<Account>, limit: usize, name: &String) -> (found: bool)
    requires
        limit <= accounts.len(),
    ensures
        found == names_of(account_views(accounts@.take(limit as int))).contains(name@),
{
    let ghost names = names_of(account_views(accounts@.take(limit as int)));
    let mut i: usize = 0;
    while i < limit
        invariant
            i <= limit <= accounts.len(),
            names == names_of(account_views(accounts@.take(limit as int))),
            forall|j: int| 0 <= j < i ==> names[j] != name@,
        decreases limit - i,
    {
        if accounts[i].name == *name {
            assert(names[i as int] == name@);
            return true;
        }
        i += 1;
    }
    false
}

/// Merges `candidates` into `existing` and says which branch was taken.
///
/// Without an existing group the result holds the candidates as given. In
/// replace mode (`append_only` false) the existing accounts are dropped for
/// the candidates. In append mode the existing accounts stay as they are,
/// and each candidate whose name none of them has is added after them. The
/// result's session duration is `session_duration` in every case.
pub fn merge(
    existing: Option<Group>,
    candidates: Vec<Account>,
    session_duration: Option<i64>,
    append_only: bool,
) -> (result: (Group, MergeBranch))
    ensures
        result.0@ == merged(
            group_view(existing),
            account_views(candidates@),
            session_duration,
            append_only,
        ),
        result.1 == branch_taken(existing.is_some(), append_only),
        unique_names(account_views(candidates@)) && (append_only && existing.is_some()
            ==> unique_names(existing.unwrap()@.accounts)) ==> unique_names(result.0@.accounts),
{
    proof {
        if existing.is_some() && unique_names(account_views(candidates@)) && unique_names(
            existing.unwrap()@.accounts,
        ) {
            lemma_merged_unique(
                existing.unwrap()@.accounts,
                account_views(candidates@),
            );
        }
    }
    match existing {
        None => (Group { accounts: candidates, session_duration }, MergeBranch::Created),
        Some(group) => {
            if append_only {
                let ghost held = group@.accounts;
                let ghost offered = account_views(candidates@);
                let mut accounts = group.accounts;
                let kept: usize = accounts.len();
                let mut i: usize = 0;
                assert(accounts@.take(kept as int) =~= accounts@);
                assert(offered.take(0) =~= Seq::empty());
                assert(account_views(accounts@) =~= appended(held, offered.take(0)));
                while i < candidates.len()
                    invariant
                        i <= candidates.len(),
                        kept <= accounts.len(),
                        held == account_views(accounts@.take(kept as int)),
                        offered == account_views(candidates@),
                        account_views(accounts@) =~= appended(held, offered.take(i as int)),
                    decreases candidates.len() - i,
                {
                    let candidate = &candidates[i];
                    proof {
                        offered.lemma_take_succ_push(i as int);
                        lemma_appended_push(held, offered.take(i as int), candidate@);
                    }
                    if !has_name(&accounts, kept, &candidate.name) {
                        let account = candidate.clone();
                        proof {
                            accounts@.lemma_push_map_commute(|a: Account| a@, account);
                            assert(accounts@.push(account).take(kept as int) =~= accounts@.take(
                                kept as int,
                            ));
                        }
                        accounts.push(account);
                    }
                    i += 1;
                }
                assert(offered.take(i as int) =~= offered);
                (Group { accounts, session_duration }, MergeBranch::Appended)
            } else {
                (Group { accounts: candidates, session_duration }, MergeBranch::Replaced)
            }
        },
    }
}

/// Appending candidates with distinct names to accounts with distinct names
/// gives accounts with distinct names.
pub proof fn lemma_merged_unique(existing: Seq<AccountView>, candidates: Seq<AccountView>)
    requires
        unique_names(existing),
        unique_names(candidates),
    ensures
        unique_names(appended(existing, candidates)),
    decreases candidates.len(),
{
    reveal(Seq::filter);
    if candidates.len() == 0 {
        assert(appended(existing, candidates) =~= existing);
    } else {
        let init = candidates.drop_last();
        let last = candidates.last();
        assert(candidates =~= init.push(last));
        assert(names_of(init) =~= names_of(candidates).drop_last());
        lemma_merged_unique(existing, init);
        lemma_appended_push(existing, init, last);
        if !names_of(existing).contains(last.name) {
            let before = appended(existing, init);
            let after = before.push(last);
            assert forall|i: int, j: int|
                0 <= i < names_of(after).len() && 0 <= j < names_of(after).len() && i
                    != j implies names_of(after)[i] != names_of(after)[j] by {
                if i < before.len() && j < before.len() {
                    assert(names_of(before)[i] != names_of(before)[j]);
                } else {
                    let k = if i < before.len() {
                        i
                    } else {
                        j
                    };
                    lemma_appended_name_source(existing, init, k);
                    if names_of(init).contains(before[k].name) {
                        let m = choose|m: int|
                            0 <= m < names_of(init).len() && names_of(init)[m] == before[k].name;
                        assert(names_of(candidates)[m] == before[k].name);
                        assert(names_of(candidates)[candidates.len() - 1] == last.name);
                    }
                }
            }
        }
    }
}

/// Replacing puts exactly the candidates into the group, whatever it held
/// before; so does creating the group.
pub proof fn lemma_replace_takes_candidates(
    existing: Option<GroupView>,
    candidates: Seq<AccountView>,
    session_duration: Option<i64>,
    append_only: bool,
)
    requires
        existing.is_none() || !append_only,
    ensures
        merged(existing, candidates, session_duration, append_only).accounts == candidates,
        merged(existing, candidates, session_duration, append_only).session_duration
            == session_duration,
{
}

/// Appending leaves the existing accounts where and as they are, sessions
/// included, and every account it adds is a candidate whose name is new to
/// the group; where the candidates hold no session, neither do the added
/// accounts.
pub proof fn lemma_append_keeps_existing(existing: Seq<AccountView>, candidates: Seq<AccountView>)
    ensures
        existing.len() <= appended(existing, candidates).len(),
        appended(existing, candidates).take(existing.len() as int) == existing,
        forall|i: int|
            existing.len() <= i < appended(existing, candidates).len() ==> {
                let account = #[trigger] appended(existing, candidates)[i];
                candidates.contains(account) && !names_of(existing).contains(account.name)
            },
        all_fresh(candidates) ==> forall|i: int|
            existing.len() <= i < appended(existing, candidates).len() ==> (#[trigger] appended(
                existing,
                candidates,
            )[i]).valid_until.is_none(),
{
    let added = candidates.filter(is_new_to(existing));
    assert(appended(existing, candidates).take(existing.len() as int) =~= existing);
    assert forall|i: int| existing.len() <= i < appended(existing, candidates).len() implies {
        let account = #[trigger] appended(existing, candidates)[i];
        &&& candidates.contains(account)
        &&& !names_of(existing).contains(account.name)
        &&& (all_fresh(candidates) ==> account.valid_until.is_none())
    } by {
        let account = added[i - existing.len()];
        candidates.lemma_filter_pred(is_new_to(existing), i - existing.len());
        assert(added.contains(account));
        candidates.lemma_filter_contains_rev(is_new_to(existing), account);
    }
}

/// Appending the same candidates a second time changes nothing: the accounts
/// are those of the first append, with the sessions they had.
pub proof fn lemma_append_idempotent(existing: Seq<AccountView>, candidates: Seq<AccountView>)
    ensures
        appended(appended(existing, candidates), candidates) == appended(existing, candidates),
{
    let once = appended(existing, candidates);
    let pred = is_new_to(once);
    assert forall|k: int| 0 <= k < candidates.len() implies !pred(#[trigger] candidates[k]) by {
        let c = candidates[k];
        if names_of(existing).contains(c.name) {
            let m = choose|m: int| 0 <= m < existing.len() && names_of(existing)[m] == c.name;
            assert(names_of(once)[m] == c.name);
        } else {
            candidates.lemma_filter_contains(is_new_to(existing), k);
            let added = candidates.filter(is_new_to(existing));
            let m = choose|m: int| 0 <= m < added.len() && added[m] == c;
            assert(names_of(once)[existing.len() + m] == c.name);
        }
    }
    candidates.lemma_all_neg_filter_empty(pred);
    assert(appended(once, candidates) =~= once);
}

/// Merging the same candidates in append mode a second time gives the group
/// that the first merge gave.
pub proof fn lemma_merge_append_idempotent(
    group: GroupView,
    candidates: Seq<AccountView>,
    session_duration: Option<i64>,
)
    ensures
        merged(
            Some(merged(Some(group), candidates, session_duration, true)),
            candidates,
            session_duration,
            true,
        ) == merged(Some(group), candidates, session_duration, true),
{
    lemma_append_idempotent(group.accounts, candidates);
}

/// Each account of an append has the name of an existing account or of a
/// candidate.
proof fn lemma_appended_name_source(
    existing: Seq<AccountView>,
    candidates: Seq<AccountView>,
    i: int,
)
    ensures
        0 <= i < appended(existing, candidates).len() ==> names_of(existing).contains(
            appended(existing, candidates)[i].name,
        ) || names_of(candidates).contains(appended(existing, candidates)[i].name),
{
    if 0 <= i < appended(existing, candidates).len() {
        if i < existing.len() {
            assert(names_of(existing)[i] == existing[i].name);
        } else {
            let added = candidates.filter(is_new_to(existing));
            let account = added[i - existing.len()];
            assert(added.contains(account));
            candidates.lemma_filter_contains_rev(is_new_to(existing), account);
            let k = choose|k: int| 0 <= k < candidates.len() && candidates[k] == account;
            assert(names_of(candidates)[k] == account.name);
        }
    }
}

} // verus!
