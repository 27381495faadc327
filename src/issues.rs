use vstd::prelude::*;

use crate::time::Timestamp;

verus! {

/// The author of an issue.
#[derive(Debug)]
pub struct GitUser {
    pub login: String,
    pub id: u32,
    pub node_id: String,
}

impl Clone for GitUser {
    fn clone(&self) -> (r: GitUser)
        ensures
            r == *self,
    {
        GitUser { login: self.login.clone(), id: self.id, node_id: self.node_id.clone() }
    }
}

/// An issue of the remote tracker, as fetched; never changed afterwards.
#[derive(Debug)]
pub struct RepoIssue {
    pub id: u32,
    pub node_id: String,
    pub html_url: String,
    pub number: u32,
    pub title: String,
    pub body: Option<String>,
    pub created_at: Timestamp,
    pub updated_at: Timestamp,
    pub user: GitUser,
}

impl Clone for RepoIssue {
    fn clone(&self) -> (r: RepoIssue)
        ensures
            r == *self,
    {
        let body = match &self.body {
            Some(b) => Some(b.clone()),
            None => None,
        };
        RepoIssue {
            id: self.id,
            node_id: self.node_id.clone(),
            html_url: self.html_url.clone(),
            number: self.number,
            title: self.title.clone(),
            body,
            created_at: self.created_at,
            updated_at: self.updated_at,
            user: self.user.clone(),
        }
    }
}

/// A copy of `issues`, item for item.
pub fn copy_issues(issues: &Vec<RepoIssue>) -> (r: Vec<RepoIssue>)
    ensures
        r@ == issues@,
{
    let mut r: Vec<RepoIssue> = Vec::new();
    let mut i: usize = 0;
    while i < issues.len()
        invariant
            0 <= i <= issues@.len(),
            r@ == issues@.take(i as int),
        decreases issues@.len() - i,
    {
        r.push(issues[i].clone());
        assert(issues@.take(i + 1) == issues@.take(i as int).push(issues@[i as int]));
        i = i + 1;
    }
    assert(issues@.take(issues@.len() as int) == issues@);
    r
}

} // verus!
