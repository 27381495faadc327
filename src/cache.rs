use vstd::prelude::*;

use crate::issues::{copy_issues, RepoIssue};

verus! {

/// A single slot that holds the most recently fetched issues. An empty slot means
/// "not fetched yet, or invalidated", never "known to be empty". Every change
/// goes through `&mut`, so no reader sees a list half replaced.
pub struct IssueCache {
    slot: Option<Vec<RepoIssue>>,
}

/// What the slot holds after a refresh that fetched `fetched`: the list where the
/// fetch brought a non-empty one, nothing otherwise.
pub open spec fn refreshed_slot(fetched: Option<Seq<RepoIssue>>) -> Option<Seq<RepoIssue>> {
    match fetched {
        Some(list) => if list.len() > 0 {
            Some(list)
        } else {
            None
        },
        None => None,
    }
}

impl View for IssueCache {
    type V = Option<Seq<RepoIssue>>;

    closed spec fn view(&self) -> Option<Seq<RepoIssue>> {
        match self.slot {
            Some(v) => Some(v@),
            None => None,
        }
    }
}

impl IssueCache {
    pub fn new() -> (r: IssueCache)
        ensures
            r@ is None,
    {
        IssueCache { slot: None }
    }

    /// A copy of the cached list, if one is there.
    pub fn get(&self) -> (r: Option<Vec<RepoIssue>>)
        ensures
            match r {
                Some(v) => self@ == Some(v@),
                None => self@ is None,
            },
    {
        match &self.slot {
            Some(v) => Some(copy_issues(v)),
            None => None,
        }
    }

    /// Overwrites the slot with `list`.
    pub fn put(&mut self, list: Vec<RepoIssue>)
        ensures
            final(self)@ == Some(list@),
    {
        self.slot = Some(list);
    }

    /// Empties the slot.
    pub fn invalidate(&mut self)
        ensures
            final(self)@ is None,
    {
        self.slot = None;
    }
}

/// A refresh of the cache with the outcome of a fetch: the slot is invalidated
/// first, then filled only with a non-empty fetched list, so a failed or empty
/// fetch leaves no data rather than stale data. Returns the issues to show: the
/// fetched list, or none where the fetch failed.
pub fn update_issues_cache(cache: &mut IssueCache, fetched: Option<Vec<RepoIssue>>) -> (r: Vec<
    RepoIssue,
>)
    ensures
        final(cache)@ == refreshed_slot(
            match fetched {
                Some(v) => Some(v@),
                None => None,
            },
        ),
        r@ == match fetched {
            Some(v) => v@,
            None => Seq::<RepoIssue>::empty(),
        },
{
    cache.invalidate();
    match fetched {
        Some(list) => {
            if list.len() > 0 {
                let copy = copy_issues(&list);
                cache.put(copy);
            }
            list
        },
        None => Vec::new(),
    }
}

/// After a put the slot holds exactly the list put; after an invalidation it
/// holds nothing; and a refresh whose fetch failed leaves it empty, whatever it
/// held before, never a stale list.
pub proof fn lemma_cache_slot_laws(list: Seq<RepoIssue>)
    ensures
        refreshed_slot(None) is None,
        refreshed_slot(Some(Seq::empty())) is None,
        list.len() > 0 ==> refreshed_slot(Some(list)) == Some(list),
{
}

} // verus!
