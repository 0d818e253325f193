use release_feed::collect::Collector;
use release_feed::github::{
    apply_filter, passes_filter, PageInfo, PaginatorState, QueryResponse, Release, ResponseData,
    Repository, StarredRepositories, ViewerData,
};

const JAN: i64 = 1704067200000; // 2024-01-01T00:00:00Z
const FEB: i64 = 1706745600000; // 2024-02-01T00:00:00Z
const MAR: i64 = 1709251200000; // 2024-03-01T00:00:00Z

fn repo(id: i64, published: i64) -> Repository {
    Repository {
        database_id: id,
        name_with_owner: format!("owner/repo{}", id),
        url: format!("https://example.com/{}", id),
        description: None,
        fork_count: 0,
        stargazer_count: 0,
        latest_release: Some(Release {
            name: None,
            tag_name: "v1".to_string(),
            url: format!("https://example.com/{}/rel", id),
            created_at: published,
            published_at: Some(published),
            is_prerelease: false,
            description_html: None,
        }),
        languages: None,
    }
}

fn page(nodes: Vec<Repository>, has_next_page: bool, end_cursor: Option<&str>) -> QueryResponse {
    QueryResponse {
        data: ResponseData {
            viewer: ViewerData {
                starred_repositories: StarredRepositories {
                    page_info: PageInfo {
                        has_next_page,
                        end_cursor: end_cursor.map(|c| c.to_string()),
                    },
                    nodes,
                },
            },
        },
    }
}

fn ids(digest: &[Repository]) -> Vec<i64> {
    digest.iter().map(|r| r.database_id).collect()
}

#[test]
fn filter_drops_prereleases_and_missing_releases() {
    let mut pre = repo(1, JAN);
    pre.latest_release.as_mut().unwrap().is_prerelease = true;
    let mut none = repo(2, JAN);
    none.latest_release = None;
    let ok = repo(3, JAN);
    assert!(!passes_filter(&pre));
    assert!(!passes_filter(&none));
    assert!(passes_filter(&ok));
    let kept = apply_filter(vec![pre, none, ok]);
    assert_eq!(ids(&kept), vec![3]);
}

#[test]
fn paginator_follows_the_end_cursor() {
    let state = PaginatorState::start();
    match &state {
        PaginatorState::Request { cursor } => assert!(cursor.is_none()),
        _ => panic!("expected an initial page request"),
    }
    let (emitted, state) = state.receive_page(page(vec![repo(1, JAN)], true, Some("X")));
    assert_eq!(ids(&emitted), vec![1]);
    match &state {
        PaginatorState::Request { cursor } => assert_eq!(cursor.as_deref(), Some("X")),
        _ => panic!("expected a second page request with the cursor"),
    }
    let (emitted, state) = state.receive_page(page(vec![repo(2, FEB)], false, None));
    assert_eq!(ids(&emitted), vec![2]);
    assert!(matches!(state, PaginatorState::Done));
}

#[test]
fn paginator_failure_is_terminal() {
    let state = PaginatorState::start();
    let state = state.receive_failure();
    assert!(matches!(state, PaginatorState::Failed));
}

#[test]
fn two_accounts_interleaved() {
    // Account 0 emits ids 1 then 2; account 1 emits ids 2 then 3; arrivals
    // interleave.
    let mut c = Collector::new(2);
    c.push(0, repo(1, JAN));
    c.push(1, repo(2, MAR));
    c.push(0, repo(2, MAR));
    c.push(1, repo(3, FEB));
    c.finish(0);
    c.finish(1);
    assert!(c.all_done());
    let digest = c.into_digest(10);
    assert_eq!(ids(&digest), vec![2, 3, 1]);
}

#[test]
fn failed_account_keeps_emitted_items() {
    // Account 0 fails after emitting id 1; account 1 completes with ids 2
    // and 3. The digest still merges both contributions.
    let mut c = Collector::new(2);
    c.push(0, repo(1, MAR));
    c.push(1, repo(2, JAN));
    c.fail(0);
    c.push(1, repo(3, FEB));
    c.finish(1);
    assert!(c.all_done());
    let digest = c.into_digest(10);
    assert_eq!(ids(&digest), vec![1, 3, 2]);
}

#[test]
fn all_accounts_failing_yields_empty_digest() {
    let mut c = Collector::new(3);
    c.fail(0);
    c.fail(1);
    assert!(!c.all_done());
    c.fail(2);
    assert!(c.all_done());
    let digest = c.into_digest(50);
    assert!(digest.is_empty());
}
