use release_feed::feed::{build_channel, escape, format_rfc2822, item_body, item_title};
use release_feed::github::{Language, Languages, Release, Repository};
use release_feed::text::u64_to_string;

fn release(ts: i64) -> Release {
    Release {
        name: Some("Release One".to_string()),
        tag_name: "v1.2".to_string(),
        url: "https://example.com/rel".to_string(),
        created_at: ts,
        published_at: Some(ts),
        is_prerelease: false,
        description_html: Some("<b>hi</b>".to_string()),
    }
}

fn repository() -> Repository {
    Repository {
        database_id: 7,
        name_with_owner: "owner/name".to_string(),
        url: "https://example.com/<x>".to_string(),
        description: Some("d&d".to_string()),
        fork_count: 2,
        stargazer_count: 3,
        latest_release: Some(release(0)),
        languages: Some(Languages {
            nodes: vec![
                Language { name: "Rust".to_string() },
                Language { name: "C".to_string() },
            ],
        }),
    }
}

#[test]
fn test_escape() {
    let source = "<a>✓&lt;";
    let esc = escape(source);
    assert_eq!(esc, "&lt;a&gt;✓&amp;lt;");
}

#[test]
fn escape_quotes_and_empty() {
    assert_eq!(escape("\"q\""), "&quot;q&quot;");
    assert_eq!(escape(""), "");
}

#[test]
fn decimal_formatting() {
    assert_eq!(u64_to_string(0), "0");
    assert_eq!(u64_to_string(42), "42");
    assert_eq!(u64_to_string(1234567890), "1234567890");
}

#[test]
fn body_composition() {
    let body = item_body(&repository());
    let expected = "<p><a href=\"https://example.com/&lt;x&gt;\">owner/name</a> | 3 stars| 2 forks.</p><p><small>| Rust | C | </small></p>\n<blockquote>d&amp;d</blockquote>\n<hr>\n<b>hi</b>";
    assert_eq!(body, expected);
}

#[test]
fn body_without_optional_parts() {
    let mut repo = repository();
    repo.description = None;
    repo.languages = None;
    repo.latest_release.as_mut().unwrap().description_html = None;
    let body = item_body(&repo);
    assert_eq!(
        body,
        "<p><a href=\"https://example.com/&lt;x&gt;\">owner/name</a> | 3 stars| 2 forks.</p>"
    );
}

#[test]
fn title_uses_release_name() {
    let title = item_title(&repository());
    assert_eq!(title, "[owner/name] Release One");
}

#[test]
fn title_falls_back_to_tag_when_blank() {
    let mut repo = repository();
    repo.latest_release.as_mut().unwrap().name = Some("  ".to_string());
    assert_eq!(item_title(&repo), "[owner/name] v1.2");
    repo.latest_release.as_mut().unwrap().name = None;
    assert_eq!(item_title(&repo), "[owner/name] v1.2");
}

#[test]
fn release_display_name() {
    let rel = release(5);
    assert_eq!(rel.name(), "Release One");
    assert_eq!(rel.timestamp(), 5);
    let mut rel2 = release(5);
    rel2.published_at = None;
    rel2.created_at = 9;
    assert_eq!(rel2.timestamp(), 9);
}

#[test]
fn rfc2822_epoch() {
    assert_eq!(format_rfc2822(0), "Thu, 1 Jan 1970 00:00:00 +0000");
    assert_eq!(format_rfc2822(86400000), "Fri, 2 Jan 1970 00:00:00 +0000");
}

#[test]
fn rfc2822_before_epoch() {
    assert_eq!(format_rfc2822(-86400000), "Wed, 31 Dec 1969 00:00:00 +0000");
}

#[test]
fn channel_holds_one_item_per_entry() {
    let repos = vec![repository()];
    let channel = build_channel(&repos[..], 4);
    assert_eq!(channel.title(), "GitHub Releases");
    assert_eq!(channel.items().len(), 1);
    let item = &channel.items()[0];
    assert_eq!(item.title(), Some("[owner/name] Release One"));
    assert_eq!(item.link(), Some("https://example.com/rel"));
    assert_eq!(item.pub_date(), Some("Thu, 1 Jan 1970 00:00:00 +0000"));
    let syn = channel.syndication_ext().expect("syndication extension");
    assert_eq!(syn.frequency(), 4);
}
