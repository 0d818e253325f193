use release_feed::digest::build_digest;
use release_feed::github::{Release, Repository};

const JAN: i64 = 1704067200000; // 2024-01-01T00:00:00Z
const FEB: i64 = 1706745600000; // 2024-02-01T00:00:00Z
const MAR: i64 = 1709251200000; // 2024-03-01T00:00:00Z

fn repo(id: i64, published: i64) -> Repository {
    Repository {
        database_id: id,
        name_with_owner: format!("owner/repo{}", id),
        url: format!("https://example.com/{}", id),
        description: None,
        fork_count: 0,
        stargazer_count: 0,
        latest_release: Some(Release {
            name: None,
            tag_name: "v1".to_string(),
            url: format!("https://example.com/{}/rel", id),
            created_at: published,
            published_at: Some(published),
            is_prerelease: false,
            description_html: None,
        }),
        languages: None,
    }
}

fn ids(digest: &[Repository]) -> Vec<i64> {
    digest.iter().map(|r| r.database_id).collect()
}

#[test]
fn two_accounts_merged_sorted_and_deduplicated() {
    // Account 1 contributed ids 1 and 2; account 2 contributed ids 2 and 3.
    let candidates = vec![repo(1, JAN), repo(2, MAR), repo(2, MAR), repo(3, FEB)];
    let digest = build_digest(candidates, 10);
    assert_eq!(ids(&digest), vec![2, 3, 1]);
}

#[test]
fn bound_of_one_keeps_most_recent() {
    let candidates = vec![repo(1, JAN), repo(2, MAR), repo(2, MAR), repo(3, FEB)];
    let digest = build_digest(candidates, 1);
    assert_eq!(ids(&digest), vec![2]);
}

#[test]
fn bound_of_zero_yields_empty_digest() {
    let digest = build_digest(vec![repo(1, JAN)], 0);
    assert!(digest.is_empty());
}

#[test]
fn empty_input_yields_empty_digest() {
    let digest = build_digest(Vec::new(), 50);
    assert!(digest.is_empty());
}

#[test]
fn duplicate_ids_keep_most_recent_release() {
    let candidates = vec![repo(5, JAN), repo(5, MAR), repo(5, FEB)];
    let digest = build_digest(candidates, 50);
    assert_eq!(digest.len(), 1);
    assert_eq!(digest[0].database_id, 5);
    assert_eq!(digest[0].latest_release.as_ref().unwrap().published_at, Some(MAR));
}

#[test]
fn created_at_backs_missing_published_at() {
    let mut a = repo(1, JAN);
    a.latest_release.as_mut().unwrap().published_at = None;
    a.latest_release.as_mut().unwrap().created_at = MAR;
    let b = repo(2, FEB);
    let digest = build_digest(vec![b, a], 50);
    assert_eq!(ids(&digest), vec![1, 2]);
}

#[test]
fn truncation_preserves_order() {
    let candidates = vec![repo(1, JAN), repo(2, MAR), repo(3, FEB)];
    let digest = build_digest(candidates, 2);
    assert_eq!(ids(&digest), vec![2, 3]);
}
