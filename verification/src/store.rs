//! The stored groups: a mapping from group name to group that keeps the
//! order in which the groups were first added.

use vstd::prelude::*;
use vstd::string::*;
use crate::account::{Account, Group, GroupView, account_views};
use crate::merger::{MergeBranch, branch_taken, merge, merged};

verus! {

/// The groups by name. No two groups share a name.
#[derive(Debug, PartialEq, Eq)]
pub struct GroupStore {
    entries: Vec<(String, Group)>,
}

/// What a sequence of named groups stands for.
pub open spec fn entry_views(entries: Seq<(String, Group)>) -> Seq<(Seq<char>, GroupView)> {
    entries.map_values(|e: (String, Group)| (e.0@, e.1@))
}

/// The names of a sequence of named groups, in order.
pub open spec fn group_names(entries: Seq<(Seq<char>, GroupView)>) -> Seq<Seq<char>> {
    entries.map_values(|e: (Seq<char>, GroupView)| e.0)
}

/// The group stored under `name`, if there is one.
pub open spec fn lookup(entries: Seq<(Seq<char>, GroupView)>, name: Seq<char>) -> Option<
    GroupView,
> {
    if group_names(entries).contains(name) {
        Some(entries[group_names(entries).index_of(name)].1)
    } else {
        None
    }
}

/// The entries after `candidates` were merged into the group `name`: the
/// group keeps its place where it exists, and goes to the end where it is
/// new. No other entry changes.
pub open spec fn after_add(
    entries: Seq<(Seq<char>, GroupView)>,
    name: Seq<char>,
    session_duration: Option<i64>,
    candidates: Seq<crate::account::AccountView>,
    append_only: bool,
) -> Seq<(Seq<char>, GroupView)> {
    let group = merged(lookup(entries, name), candidates, session_duration, append_only);
    if group_names(entries).contains(name) {
        entries.update(group_names(entries).index_of(name), (name, group))
    } else {
        entries.push((name, group))
    }
}

/// The entries after the group `name` was set to `group`: in its place
/// where the name exists, at the end where it is new.
pub open spec fn after_insert(
    entries: Seq<(Seq<char>, GroupView)>,
    name: Seq<char>,
    group: GroupView,
) -> Seq<(Seq<char>, GroupView)> {
    if group_names(entries).contains(name) {
        entries.update(group_names(entries).index_of(name), (name, group))
    } else {
        entries.push((name, group))
    }
}

/// The entries after the group `name` was removed; the same entries where
/// there is no such group.
pub open spec fn after_delete(entries: Seq<(Seq<char>, GroupView)>, name: Seq<char>) -> Seq<
    (Seq<char>, GroupView),
> {
    if group_names(entries).contains(name) {
        entries.remove(group_names(entries).index_of(name))
    } else {
        entries
    }
}

/// Among distinct names, the entry at `i` is the one found under its name.
pub proof fn lemma_position(entries: Seq<(Seq<char>, GroupView)>, i: int)
    requires
        group_names(entries).no_duplicates(),
        0 <= i < entries.len(),
    ensures
        group_names(entries).contains(entries[i].0),
        group_names(entries).index_of(entries[i].0) == i,
        lookup(entries, entries[i].0) == Some(entries[i].1),
{
    let names = group_names(entries);
    assert(names[i] == entries[i].0);
    let found = names.index_of(entries[i].0);
    assert(0 <= found < names.len() && names[found] == entries[i].0);
}

/// After a group was set, its name leads to it, and every other name
/// leads to what it led to before.
pub proof fn lemma_lookup_after_insert(
    entries: Seq<(Seq<char>, GroupView)>,
    name: Seq<char>,
    group: GroupView,
    other: Seq<char>,
)
    requires
        group_names(entries).no_duplicates(),
    ensures
        group_names(after_insert(entries, name, group)).no_duplicates(),
        lookup(after_insert(entries, name, group), name) == Some(group),
        other != name ==> lookup(after_insert(entries, name, group), other) == lookup(
            entries,
            other,
        ),
{
    let names = group_names(entries);
    let after = after_insert(entries, name, group);
    let at = if names.contains(name) {
        names.index_of(name)
    } else {
        entries.len() as int
    };
    if names.contains(name) {
        assert(group_names(after) =~= names);
    } else {
        assert(group_names(after) =~= names.push(name));
    }
    lemma_position(after, at);
    if other != name {
        if names.contains(other) {
            let k = names.index_of(other);
            lemma_position(entries, k);
            lemma_position(after, k);
        } else if group_names(after).contains(other) {
            let k = group_names(after).index_of(other);
            assert(names[k] == other);
        }
    }
}

/// After adding to a group, its name leads to the merge of what it led to
/// before with the candidates, and every other name leads to what it led to
/// before.
pub proof fn lemma_lookup_after_add(
    entries: Seq<(Seq<char>, GroupView)>,
    name: Seq<char>,
    session_duration: Option<i64>,
    candidates: Seq<crate::account::AccountView>,
    append_only: bool,
    other: Seq<char>,
)
    requires
        group_names(entries).no_duplicates(),
    ensures
        lookup(after_add(entries, name, session_duration, candidates, append_only), name) == Some(
            merged(lookup(entries, name), candidates, session_duration, append_only),
        ),
        other != name ==> lookup(
            after_add(entries, name, session_duration, candidates, append_only),
            other,
        ) == lookup(entries, other),
{
    let group = merged(lookup(entries, name), candidates, session_duration, append_only);
    lemma_lookup_after_insert(entries, name, group, other);
}

/// After a deletion the name leads to no group, and every other name leads
/// to what it led to before.
pub proof fn lemma_lookup_after_delete(
    entries: Seq<(Seq<char>, GroupView)>,
    name: Seq<char>,
    other: Seq<char>,
)
    requires
        group_names(entries).no_duplicates(),
    ensures
        group_names(after_delete(entries, name)).no_duplicates(),
        lookup(after_delete(entries, name), name).is_none(),
        other != name ==> lookup(after_delete(entries, name), other) == lookup(entries, other),
{
    let names = group_names(entries);
    let after = after_delete(entries, name);
    if names.contains(name) {
        let at = names.index_of(name);
        assert(group_names(after) =~= names.remove(at));
        if group_names(after).contains(name) {
            let k = group_names(after).index_of(name);
            assert(names[if k < at { k } else { k + 1 }] == name);
        }
        if other != name {
            if names.contains(other) {
                let k = names.index_of(other);
                lemma_position(entries, k);
                lemma_position(after, if k < at { k } else { k - 1 });
            } else if group_names(after).contains(other) {
                let k = group_names(after).index_of(other);
                assert(names[if k < at { k } else { k + 1 }] == other);
            }
        }
    }
}

impl View for GroupStore {
    type V = Seq<(Seq<char>, GroupView)>;

    closed spec fn view(&self) -> Seq<(Seq<char>, GroupView)> {
        entry_views(self.entries@)
    }
}

impl GroupStore {
    /// Whether the store is well formed: no two groups share a name.
    pub open spec fn wf(&self) -> bool {
        group_names(self@).no_duplicates()
    }

    /// A store without groups.
    pub fn new() -> (store: GroupStore)
        ensures
            store.wf(),
            store@ == Seq::<(Seq<char>, GroupView)>::empty(),
    {
        let store = GroupStore { entries: Vec::new() };
        assert(store@ =~= Seq::empty());
        store
    }

    /// The number of groups.
    pub fn len(&self) -> (n: usize)
        ensures
            n == self@.len(),
    {
        self.entries.len()
    }

    /// The groups with their names, in the order in which they were added.
    pub fn entries(&self) -> (entries: &Vec<(String, Group)>)
        ensures
            entry_views(entries@) == self@,
    {
        &self.entries
    }

    /// Where the group `name` stands, if it exists.
    fn position(&self, name: &String) -> (found: Option<usize>)
        ensures
            match found {
                Some(i) => i < self@.len() && self@[i as int].0 == name@,
                None => !group_names(self@).contains(name@),
            },
    {
        let mut i: usize = 0;
        while i < self.entries.len()
            invariant
                i <= self.entries.len(),
                forall|j: int| 0 <= j < i ==> group_names(self@)[j] != name@,
            decreases self.entries.len() - i,
        {
            if self.entries[i].0 == *name {
                return Some(i);
            }
            i += 1;
        }
        None
    }

    /// Whether a group `name` exists.
    pub fn contains_key(&self, name: &str) -> (found: bool)
        ensures
            found == group_names(self@).contains(name@),
    {
        let name = String::from_str(name);
        match self.position(&name) {
            Some(i) => {
                assert(group_names(self@)[i as int] == name@);
                true
            },
            None => false,
        }
    }

    /// The group stored under `name`, if there is one.
    pub fn get(&self, name: &str) -> (group: Option<&Group>)
        requires
            self.wf(),
        ensures
            match group {
                Some(g) => lookup(self@, name@) == Some(g@),
                None => lookup(self@, name@).is_none(),
            },
    {
        let name = String::from_str(name);
        match self.position(&name) {
            Some(i) => {
                proof {
                    lemma_position(self@, i as int);
                }
                Some(&self.entries[i].1)
            },
            None => None,
        }
    }

    /// Stores `group` under `name` and returns the group that was stored
    /// there before, if there was one.
    pub fn insert(&mut self, name: String, group: Group) -> (previous: Option<Group>)
        requires
            old(self).wf(),
        ensures
            final(self).wf(),
            final(self)@ == after_insert(old(self)@, name@, group@),
            crate::merger::group_view(previous) == lookup(old(self)@, name@),
    {
        match self.position(&name) {
            Some(i) => {
                proof {
                    lemma_position(self@, i as int);
                }
                let (_, previous) = self.entries.remove(i);
                self.entries.insert(i, (name, group));
                assert(self@ =~= old(self)@.update(i as int, (name@, group@)));
                assert(group_names(self@) =~= group_names(old(self)@));
                Some(previous)
            },
            None => {
                self.entries.push((name, group));
                assert(self@ =~= old(self)@.push((name@, group@)));
                assert(group_names(self@) =~= group_names(old(self)@).push(name@));
                None
            },
        }
    }

    /// Removes the group stored under `name` and returns it, if there is one.
    pub fn remove(&mut self, name: &str) -> (removed: Option<Group>)
        requires
            old(self).wf(),
        ensures
            final(self).wf(),
            final(self)@ == after_delete(old(self)@, name@),
            crate::merger::group_view(removed) == lookup(old(self)@, name@),
    {
        let name = String::from_str(name);
        match self.position(&name) {
            Some(i) => {
                proof {
                    lemma_position(self@, i as int);
                }
                let (_, removed) = self.entries.remove(i);
                assert(self@ =~= old(self)@.remove(i as int));
                assert(group_names(self@) =~= group_names(old(self)@).remove(i as int));
                Some(removed)
            },
            None => None,
        }
    }
}

/// Merges `accounts` into the group `name` of the store, creating the group
/// where it does not exist, and says which of the three was done. In append
/// mode an existing group keeps its accounts and gains those whose names it
/// does not hold yet; otherwise the accounts given become the group's
/// accounts. The group's session duration becomes `session_duration`.
pub fn add(
    store: &mut GroupStore,
    name: &str,
    session_duration: Option<i64>,
    accounts: Vec<Account>,
    append_only: bool,
) -> (branch: MergeBranch)
    requires
        old(store).wf(),
    ensures
        final(store).wf(),
        final(store)@ == after_add(
            old(store)@,
            name@,
            session_duration,
            account_views(accounts@),
            append_only,
        ),
        branch == branch_taken(group_names(old(store)@).contains(name@), append_only),
{
    let name = String::from_str(name);
    match store.position(&name) {
        Some(i) => {
            proof {
                lemma_position(store@, i as int);
            }
            let (key, group) = store.entries.remove(i);
            let (group, branch) = merge(Some(group), accounts, session_duration, append_only);
            store.entries.insert(i, (key, group));
            assert(store@ =~= old(store)@.update(i as int, (name@, group@)));
            assert(group_names(store@) =~= group_names(old(store)@));
            branch
        },
        None => {
            let (group, branch) = merge(None, accounts, session_duration, append_only);
            store.entries.push((name, group));
            assert(store@ =~= old(store)@.push((name@, group@)));
            assert(group_names(store@) =~= group_names(old(store)@).push(name@));
            branch
        },
    }
}

/// How a deletion ended.
#[derive(Clone, Copy, Debug, PartialEq, Eq, Structural)]
pub enum DeleteOutcome {
    /// The group was removed.
    Deleted,
    /// There is no group of that name.
    NoSuchGroup,
}

impl DeleteOutcome {
    /// What the user is told.
    pub fn message(&self) -> (text: &'static str)
        ensures
            text@ == match self {
                DeleteOutcome::Deleted => "Successfully deleted group"@,
                DeleteOutcome::NoSuchGroup => "The specified group does not exist"@,
            },
    {
        match self {
            DeleteOutcome::Deleted => "Successfully deleted group",
            DeleteOutcome::NoSuchGroup => "The specified group does not exist",
        }
    }
}

/// Removes the group `name` from the store. Where there is no such group
/// the store is left as it is and the outcome says so.
pub fn delete(store: &mut GroupStore, name: &str) -> (outcome: DeleteOutcome)
    requires
        old(store).wf(),
    ensures
        final(store).wf(),
        outcome == if group_names(old(store)@).contains(name@) {
            DeleteOutcome::Deleted
        } else {
            DeleteOutcome::NoSuchGroup
        },
        final(store)@ == after_delete(old(store)@, name@),
        outcome == DeleteOutcome::NoSuchGroup ==> final(store)@ == old(store)@,
{
    match store.remove(name) {
        Some(_) => DeleteOutcome::Deleted,
        None => DeleteOutcome::NoSuchGroup,
    }
}

} // verus!
