use vstd::prelude::*;
use crate::clock::Timestamp;
use crate::number::{decimal_u64, parse_u64};

verus! {

/// Connection settings of the remote job store.
pub struct Git {
    /// The token that authenticates each request.
    pub token: String,
    /// The base address of the store's interface.
    pub base_url: String,
}

impl Git {
    pub fn new(token: String, base_url: String) -> (r: Git)
        ensures
            r.token == token,
            r.base_url == base_url,
    {
        Git { token, base_url }
    }
}

/// A project of the store.
pub struct Project {
    pub id: u64,
    pub name: String,
}

/// A build job of a project.
#[derive(Clone, Copy, Debug, PartialEq, Eq, Structural)]
pub struct Job {
    pub id: u64,
    pub created_at: Timestamp,
    pub erased_at: Option<Timestamp>,
}

/// Request: find the project with this name.
pub struct GetProject {
    pub project_name: String,
}

/// Request: one page of the jobs of a project.
#[derive(Clone, Copy, Debug, PartialEq, Eq, Structural)]
pub struct GetJobs {
    pub project_id: u64,
    /// The instant the cleaned jobs must be older than.
    pub older_than: Timestamp,
    pub page: u64,
}

/// One page of jobs, and the number of the page after it, if any.
pub struct GetJobsResponse {
    pub jobs: Vec<Job>,
    pub next_page: Option<u64>,
}

/// Request: erase one job of a project.
#[derive(Clone, Copy, Debug, PartialEq, Eq, Structural)]
pub struct EraseJob {
    pub project_id: u64,
    pub job_id: u64,
}

/// What can go wrong when talking to the store.
#[derive(Debug, PartialEq, Eq)]
pub enum GitError {
    /// No project matches the searched name.
    NotFound,
    /// More than one project matches the searched name.
    Ambiguous,
    /// The request itself failed.
    Transport(String),
}

/// The outcome of a project search that returned `found`.
pub open spec fn resolution(found: Seq<Project>) -> Result<u64, GitError> {
    if found.len() == 0 {
        Err(GitError::NotFound)
    } else if found.len() == 1 {
        Ok(found[0].id)
    } else {
        Err(GitError::Ambiguous)
    }
}

/// A search designates a project exactly when it found one: then that
/// project's id; no match is `NotFound`, several are `Ambiguous`.
pub proof fn resolution_needs_one_match(found: Seq<Project>)
    ensures
        resolution(found) is Ok <==> found.len() == 1,
        found.len() == 1 ==> resolution(found) == Ok::<u64, GitError>(found[0].id),
        found.len() == 0 <==> resolution(found) == Err::<u64, GitError>(GitError::NotFound),
        found.len() > 1 <==> resolution(found) == Err::<u64, GitError>(GitError::Ambiguous),
{
}

/// The project that a search designates: the one it found when it found
/// exactly one.
pub fn resolve_project(found: &Vec<Project>) -> (r: Result<u64, GitError>)
    ensures
        r == resolution(found@),
{
    if found.len() == 0 {
        Err(GitError::NotFound)
    } else if found.len() == 1 {
        Ok(found[0].id)
    } else {
        Err(GitError::Ambiguous)
    }
}

/// The next page that a listing response announces, from the text of its
/// next-page header: `None` where the header is absent or holds no number.
pub fn next_page_from_header(value: Option<&str>) -> (r: Option<u64>)
    ensures
        r == match value {
            Some(v) => decimal_u64(v@),
            None => None,
        },
{
    match value {
        Some(v) => parse_u64(v),
        None => None,
    }
}

} // verus!
