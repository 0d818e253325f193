//! Data model for one page of starred-repository releases, the per-account
//! pagination state machine, and the release filter.

use vstd::prelude::*;
use crate::text::{is_blank, is_blank_seq};

verus! {

/// One programming language attached to a repository.
pub struct Language {
    pub name: String,
}

/// The (truncated) list of languages of a repository.
pub struct Languages {
    pub nodes: Vec<Language>,
}

/// The latest release of a repository. Timestamps are milliseconds since the
/// Unix epoch, in UTC.
pub struct Release {
    pub name: Option<String>,
    pub tag_name: String,
    pub url: String,
    pub created_at: i64,
    pub published_at: Option<i64>,
    pub is_prerelease: bool,
    pub description_html: Option<String>,
}

/// One starred repository together with its latest release, if any.
pub struct Repository {
    pub database_id: i64,
    pub name_with_owner: String,
    pub url: String,
    pub description: Option<String>,
    pub fork_count: u64,
    pub stargazer_count: u64,
    pub latest_release: Option<Release>,
    pub languages: Option<Languages>,
}

/// Paging information of one page: whether another page follows, and the
/// cursor to request it with.
pub struct PageInfo {
    pub has_next_page: bool,
    pub end_cursor: Option<String>,
}

/// One page of the starred-repository listing.
pub struct StarredRepositories {
    pub page_info: PageInfo,
    pub nodes: Vec<Repository>,
}

impl Release {
    /// The moment the release became effective: the publication time if the
    /// release was published, otherwise its creation time.
    pub open spec fn spec_timestamp(self) -> i64 {
        match self.published_at {
            Some(t) => t,
            None => self.created_at,
        }
    }

    pub fn timestamp(&self) -> (t: i64)
        ensures
            t == self.spec_timestamp(),
    {
        match self.published_at {
            Some(t) => t,
            None => self.created_at,
        }
    }

    /// The title shown for the release: its display name when that is not
    /// blank, otherwise its tag name.
    pub open spec fn spec_name(self) -> Seq<char> {
        match self.name {
            Some(n) => if is_blank_seq(n@) {
                self.tag_name@
            } else {
                n@
            },
            None => self.tag_name@,
        }
    }

    pub fn name(&self) -> (r: &str)
        ensures
            r@ == self.spec_name(),
    {
        match &self.name {
            Some(n) => {
                if !is_blank(n.as_str()) {
                    n.as_str()
                } else {
                    self.tag_name.as_str()
                }
            },
            None => self.tag_name.as_str(),
        }
    }
}

/// The effective timestamp of a repository's latest release; repositories
/// without a release never reach the digest, so their value is immaterial.
pub open spec fn repo_timestamp(repo: Repository) -> i64 {
    match repo.latest_release {
        Some(rel) => rel.spec_timestamp(),
        None => 0,
    }
}

/// The effective timestamp of `repo`'s latest release, as `repo_timestamp`
/// describes.
pub fn recency(repo: &Repository) -> (t: i64)
    ensures
        t == repo_timestamp(*repo),
{
    match &repo.latest_release {
        Some(rel) => rel.timestamp(),
        None => 0,
    }
}

/// The release filter: a repository is admitted exactly when it has a latest
/// release and that release is not a prerelease.
pub open spec fn spec_passes_filter(repo: Repository) -> bool {
    match repo.latest_release {
        Some(rel) => !rel.is_prerelease,
        None => false,
    }
}

/// Decides whether one candidate passes the release filter.
pub fn passes_filter(repo: &Repository) -> (r: bool)
    ensures
        r == spec_passes_filter(*repo),
{
    match &repo.latest_release {
        Some(rel) => !rel.is_prerelease,
        None => false,
    }
}

/// The subsequence of `nodes` that passes the release filter, in page order.
pub open spec fn filter_page(nodes: Seq<Repository>) -> Seq<Repository>
    decreases nodes.len(),
{
    if nodes.len() == 0 {
        Seq::empty()
    } else {
        let rest = filter_page(nodes.drop_first());
        if spec_passes_filter(nodes.first()) {
            seq![nodes.first()] + rest
        } else {
            rest
        }
    }
}

/// Keeps exactly the candidates that pass the release filter, in page order.
pub fn apply_filter(nodes: Vec<Repository>) -> (r: Vec<Repository>)
    ensures
        r@ == filter_page(nodes@),
{
    let ghost orig = nodes@;
    let mut rest = nodes;
    let mut r: Vec<Repository> = Vec::new();
    proof {
        assert(r@ + filter_page(rest@) =~= filter_page(orig));
    }
    while rest.len() > 0
        invariant
            filter_page(orig) == r@ + filter_page(rest@),
        decreases rest@.len(),
    {
        let ghost pre = rest@;
        let x = rest.remove(0);
        proof {
            assert(pre.remove(0) =~= pre.drop_first());
            assert(x == pre.first());
        }
        if passes_filter(&x) {
            let ghost r0 = r@;
            r.push(x);
            proof {
                assert(r0 + (seq![x] + filter_page(rest@)) =~= r@ + filter_page(rest@));
            }
        }
    }
    proof {
        assert(filter_page(rest@) =~= Seq::<Repository>::empty());
        assert(filter_page(orig) =~= r@);
    }
    r
}

/// The starred repositories of one query response.
pub struct ViewerData {
    pub starred_repositories: StarredRepositories,
}

/// The payload of one query response.
pub struct ResponseData {
    pub viewer: ViewerData,
}

/// One decoded page response of the remote listing.
pub struct QueryResponse {
    pub data: ResponseData,
}

/// The pagination state of one account's stream.
///
/// The stream starts at `Request { cursor: None }` (the first page carries no
/// cursor), requests one page per `Request` state, and ends at `Done` when a
/// page reports no further pages, or at `Failed` when a page request or its
/// decoding fails.
pub enum PaginatorState {
    Request { cursor: Option<String> },
    Done,
    Failed,
}

impl PaginatorState {
    /// The initial state: request the first page, with no cursor.
    pub fn start() -> (s: PaginatorState)
        ensures
            (s matches PaginatorState::Request { cursor } && cursor is None),
    {
        PaginatorState::Request { cursor: None }
    }

    /// Consumes one decoded page: emits the candidates of the page that pass
    /// the release filter, in page order, and moves to the next state — a
    /// request with the page's end cursor when a further page exists,
    /// otherwise `Done`.
    pub fn receive_page(self, response: QueryResponse) -> (r: (Vec<Repository>, PaginatorState))
        requires
            self is Request,
        ensures
            r.0@ == filter_page(response.data.viewer.starred_repositories.nodes@),
            response.data.viewer.starred_repositories.page_info.has_next_page ==> (r.1
                matches PaginatorState::Request { cursor } && cursor
                == response.data.viewer.starred_repositories.page_info.end_cursor),
            !response.data.viewer.starred_repositories.page_info.has_next_page ==> r.1
                is Done,
    {
        let page = response.data.viewer.starred_repositories;
        let emitted = apply_filter(page.nodes);
        let next = if page.page_info.has_next_page {
            PaginatorState::Request { cursor: page.page_info.end_cursor }
        } else {
            PaginatorState::Done
        };
        (emitted, next)
    }

    /// A transport or decoding failure ends the account's stream
    /// irrecoverably: no further items are produced.
    pub fn receive_failure(self) -> (r: PaginatorState)
        ensures
            r is Failed,
    {
        PaginatorState::Failed
    }
}

} // verus!
