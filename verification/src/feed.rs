//! RSS generator: composes each digest entry's title and HTML body, with
//! exact contracts, and hands the composed strings to the `rss` crate.

use vstd::prelude::*;
use vstd::string::{StrSliceExecFns, StringExecFns};
use crate::github::{repo_timestamp, Repository};
use crate::text::{dec_of, push_char, u64_to_string};

verus! {

/// The HTML escaping of one character: the named entity for the four
/// characters HTML reserves, the character itself otherwise.
pub open spec fn escape_char(c: char) -> Seq<char> {
    if c == '"' {
        "&quot;"@
    } else if c == '&' {
        "&amp;"@
    } else if c == '<' {
        "&lt;"@
    } else if c == '>' {
        "&gt;"@
    } else {
        seq![c]
    }
}

/// The HTML escaping of a string, character by character.
pub open spec fn escaped_of(s: Seq<char>) -> Seq<char>
    decreases s.len(),
{
    if s.len() == 0 {
        Seq::empty()
    } else {
        escaped_of(s.drop_last()) + escape_char(s.last())
    }
}

/// Escapes characters to insert a string in an HTML source, as `escaped_of`
/// describes.
pub fn escape(s: &str) -> (r: String)
    ensures
        r@ == escaped_of(s@),
{
    let n = s.unicode_len();
    let mut r = String::new();
    let mut i: usize = 0;
    proof {
        assert(r@ =~= escaped_of(s@.take(0)));
    }
    while i < n
        invariant
            0 <= i <= n == s@.len(),
            r@ == escaped_of(s@.take(i as int)),
        decreases n - i,
    {
        let c = s.get_char(i);
        if c == '"' {
            r.append("&quot;");
        } else if c == '&' {
            r.append("&amp;");
        } else if c == '<' {
            r.append("&lt;");
        } else if c == '>' {
            r.append("&gt;");
        } else {
            push_char(&mut r, c);
            proof {
                assert(escape_char(c) =~= seq![c]);
            }
        }
        proof {
            assert(s@.take(i + 1).drop_last() =~= s@.take(i as int));
            assert(s@.take(i + 1).last() == c);
            assert(r@ =~= escaped_of(s@.take(i + 1)));
        }
        i = i + 1;
    }
    proof {
        assert(s@.take(n as int) =~= s@);
    }
    r
}

/// The language list section of an item body: each language name escaped and
/// followed by `" | "`, in list order.
pub open spec fn langs_text_of(nodes: Seq<crate::github::Language>) -> Seq<char>
    decreases nodes.len(),
{
    if nodes.len() == 0 {
        Seq::empty()
    } else {
        langs_text_of(nodes.drop_last()) + escaped_of(nodes.last().name@) + " | "@
    }
}

/// The HTML body of one digest entry: a heading line with the escaped link,
/// name and counts; then, when present, the language list, the escaped
/// description in a blockquote, and the release's own HTML after a rule.
pub open spec fn item_body_of(repo: Repository) -> Seq<char> {
    let head = "<p><a href=\""@ + escaped_of(repo.url@) + "\">"@ + escaped_of(
        repo.name_with_owner@) + "</a> | "@ + dec_of(repo.stargazer_count as int) + " stars| "@
        + dec_of(repo.fork_count as int) + " forks.</p>"@;
    let langs = match repo.languages {
        Some(l) => "<p><small>| "@ + langs_text_of(l.nodes@) + "</small></p>\n"@,
        None => Seq::empty(),
    };
    let desc = match repo.description {
        Some(d) => "<blockquote>"@ + escaped_of(d@) + "</blockquote>\n"@,
        None => Seq::empty(),
    };
    let rel = match repo.latest_release {
        Some(r) => match r.description_html {
            Some(h) => "<hr>\n"@ + h@,
            None => Seq::empty(),
        },
        None => Seq::empty(),
    };
    head + langs + desc + rel
}

/// Composes the HTML body of one digest entry, as `item_body_of` describes.
pub fn item_body(repo: &Repository) -> (r: String)
    ensures
        r@ == item_body_of(*repo),
{
    let mut body = "<p><a href=\"".to_owned();
    body.append(escape(repo.url.as_str()).as_str());
    body.append("\">");
    body.append(escape(repo.name_with_owner.as_str()).as_str());
    body.append("</a> | ");
    body.append(u64_to_string(repo.stargazer_count).as_str());
    body.append(" stars| ");
    body.append(u64_to_string(repo.fork_count).as_str());
    body.append(" forks.</p>");
    match &repo.languages {
        Some(l) => {
            body.append("<p><small>| ");
            let ghost before = body@;
            let n = l.nodes.len();
            let mut i: usize = 0;
            proof {
                assert(body@ =~= before + langs_text_of(l.nodes@.take(0)));
            }
            while i < n
                invariant
                    0 <= i <= n == l.nodes@.len(),
                    body@ == before + langs_text_of(l.nodes@.take(i as int)),
                decreases n - i,
            {
                body.append(escape(l.nodes[i].name.as_str()).as_str());
                body.append(" | ");
                proof {
                    assert(l.nodes@.take(i + 1).drop_last() =~= l.nodes@.take(i as int));
                    assert(l.nodes@.take(i + 1).last() == l.nodes@[i as int]);
                    assert(body@ =~= before + langs_text_of(l.nodes@.take(i + 1)));
                }
                i = i + 1;
            }
            proof {
                assert(l.nodes@.take(n as int) =~= l.nodes@);
            }
            body.append("</small></p>\n");
        },
        None => {},
    }
    match &repo.description {
        Some(d) => {
            body.append("<blockquote>");
            body.append(escape(d.as_str()).as_str());
            body.append("</blockquote>\n");
        },
        None => {},
    }
    match &repo.latest_release {
        Some(rel) => match &rel.description_html {
            Some(h) => {
                body.append("<hr>\n");
                body.append(h.as_str());
            },
            None => {},
        },
        None => {},
    }
    proof {
        assert(body@ =~= item_body_of(*repo));
    }
    body
}

/// The title of one digest entry: the repository name in brackets, then the
/// release's display title.
pub open spec fn item_title_of(repo: Repository) -> Seq<char>
    recommends
        repo.latest_release is Some,
{
    "["@ + repo.name_with_owner@ + "] "@ + repo.latest_release->0.spec_name()
}

/// Composes the title of one digest entry, as `item_title_of` describes.
pub fn item_title(repo: &Repository) -> (r: String)
    requires
        repo.latest_release is Some,
    ensures
        r@ == item_title_of(*repo),
{
    let mut title = "[".to_owned();
    title.append(repo.name_with_owner.as_str());
    title.append("] ");
    match &repo.latest_release {
        Some(rel) => {
            title.append(rel.name());
        },
        None => {},
    }
    title
}

/// The earliest timestamp (milliseconds since the Unix epoch) whose RFC
/// 2822 year is not negative: the start of year 0.
pub const MIN_RFC2822_MILLIS: i64 = -62167219200000;

/// The earliest timestamp (milliseconds since the Unix epoch) whose RFC
/// 2822 year no longer fits in four digits: the start of year 10000.
pub const MAX_RFC2822_MILLIS: i64 = 253402300800000;

/// The RFC 2822 rendering of the UTC moment `t` milliseconds after the Unix
/// epoch; the result of chrono's formatting, which depends on `t` alone.
pub uninterp spec fn rfc2822_of(t: int) -> Seq<char>;

/// Relies on chrono's DateTime::from_timestamp_millis and to_rfc2822: the
/// RFC 2822 rendering of the UTC moment `t` milliseconds after the epoch.
/// The bounds keep the year between 0 and 9999, where to_rfc2822 is
/// documented not to panic; within them from_timestamp_millis returns a
/// value.
#[verifier::external_body]
pub fn format_rfc2822(t: i64) -> (r: String)
    requires
        MIN_RFC2822_MILLIS <= t < MAX_RFC2822_MILLIS,
    ensures
        r@ == rfc2822_of(t as int),
{
    match chrono::DateTime::<chrono::Utc>::from_timestamp_millis(t) {
        Some(dt) => dt.to_rfc2822(),
        None => String::new(),
    }
}

#[verifier::external_type_specification]
#[verifier::external_body]
pub struct ExItem(rss::Item);

#[verifier::external_type_specification]
#[verifier::external_body]
pub struct ExChannel(rss::Channel);

/// The title a feed item carries (what `rss::Item::title` returns).
pub uninterp spec fn item_title_text(i: rss::Item) -> Seq<char>;

/// The link a feed item carries (what `rss::Item::link` returns).
pub uninterp spec fn item_link_text(i: rss::Item) -> Seq<char>;

/// The publication date a feed item carries (what `rss::Item::pub_date`
/// returns).
pub uninterp spec fn item_pub_date_text(i: rss::Item) -> Seq<char>;

/// The description a feed item carries (what `rss::Item::description`
/// returns).
pub uninterp spec fn item_description_text(i: rss::Item) -> Seq<char>;

/// The items a channel holds, in order (what `rss::Channel::items`
/// returns).
pub uninterp spec fn channel_items(c: rss::Channel) -> Seq<rss::Item>;

/// The channel's title (what `rss::Channel::title` returns).
pub uninterp spec fn channel_title_text(c: rss::Channel) -> Seq<char>;

/// The base moment of the channel's syndication extension (what
/// `SyndicationExtension::base` returns).
pub uninterp spec fn channel_syn_base_text(c: rss::Channel) -> Seq<char>;

/// The update frequency of the channel's syndication extension (what
/// `SyndicationExtension::frequency` returns).
pub uninterp spec fn channel_syn_frequency(c: rss::Channel) -> u32;

/// The textual form of the syndication extension's update period (how
/// `UpdatePeriod` serializes: `hourly`, `daily`, and so on).
pub uninterp spec fn channel_syn_period_text(c: rss::Channel) -> Seq<char>;

/// The URI the channel's namespace map holds under the key `syn`.
pub uninterp spec fn channel_syn_namespace_text(c: rss::Channel) -> Seq<char>;

/// Relies on rss::ItemBuilder: builds one feed item carrying exactly the
/// given title, link, publication date and description; with this builder,
/// building cannot fail.
#[verifier::external_body]
fn rss_item(title: &str, link: &str, pub_date: &str, description: &str) -> (r: rss::Item)
    ensures
        item_title_text(r) == title@,
        item_link_text(r) == link@,
        item_pub_date_text(r) == pub_date@,
        item_description_text(r) == description@,
{
    rss::ItemBuilder::default()
        .title(Some(title.to_owned()))
        .link(Some(link.to_owned()))
        .pub_date(Some(pub_date.to_owned()))
        .description(Some(description.to_owned()))
        .build()
}

/// Relies on rss::ChannelBuilder and its syndication extension: builds the
/// channel holding exactly the given items and title, with an update hint
/// of `ttl_cache` updates per hourly period from the given base moment,
/// registered under the `syn` namespace (the syndication module's URI);
/// with this builder, building cannot fail.
#[verifier::external_body]
fn rss_channel(title: &str, items: Vec<rss::Item>, ttl_cache: u32, base: &str) -> (r: rss::Channel)
    ensures
        channel_title_text(r) == title@,
        channel_items(r) == items@,
        channel_syn_base_text(r) == base@,
        channel_syn_frequency(r) == ttl_cache,
        channel_syn_period_text(r) == "hourly"@,
        channel_syn_namespace_text(r) == "http://purl.org/rss/1.0/modules/syndication/"@,
{
    let mut syn_ext = rss::extension::syndication::SyndicationExtension::default();
    syn_ext.set_base(base);
    syn_ext.set_frequency(ttl_cache);
    syn_ext.set_period(rss::extension::syndication::UpdatePeriod::Hourly);
    let mut namespaces = std::collections::BTreeMap::new();
    namespaces.insert("syn".to_owned(), rss::extension::syndication::NAMESPACE.to_owned());
    rss::ChannelBuilder::default()
        .title(title.to_owned())
        .namespaces(namespaces)
        .syndication_ext(Some(syn_ext))
        .items(items)
        .build()
}

/// Builds the feed channel for the digest: one item per digest entry, in
/// digest order, each carrying the verified title, link, publication date
/// and body of its entry; the channel is titled "GitHub Releases" and
/// carries an update hint of `ttl_cache` per hour for aggregators.
pub fn build_channel(repositories: &[Repository], ttl_cache: u32) -> (channel: rss::Channel)
    requires
        forall|k: int| 0 <= k < repositories@.len() ==> repositories@[k].latest_release is Some,
        forall|k: int| 0 <= k < repositories@.len() ==> MIN_RFC2822_MILLIS <= repo_timestamp(
            #[trigger] repositories@[k]) < MAX_RFC2822_MILLIS,
    ensures
        channel_title_text(channel) == "GitHub Releases"@,
        channel_syn_base_text(channel) == "1970-01-01T00:00+00:00"@,
        channel_syn_frequency(channel) == ttl_cache,
        channel_syn_period_text(channel) == "hourly"@,
        channel_syn_namespace_text(channel) == "http://purl.org/rss/1.0/modules/syndication/"@,
        channel_items(channel).len() == repositories@.len(),
        forall|k: int| 0 <= k < repositories@.len() ==> item_title_text(
            #[trigger] channel_items(channel)[k]) == item_title_of(repositories@[k]),
        forall|k: int| 0 <= k < repositories@.len() ==> item_link_text(
            #[trigger] channel_items(channel)[k]) == repositories@[k].latest_release->0.url@,
        forall|k: int| 0 <= k < repositories@.len() ==> item_pub_date_text(
            #[trigger] channel_items(channel)[k]) == rfc2822_of(
            repo_timestamp(repositories@[k]) as int),
        forall|k: int| 0 <= k < repositories@.len() ==> item_description_text(
            #[trigger] channel_items(channel)[k]) == item_body_of(repositories@[k]),
{
    let n = repositories.len();
    let mut items: Vec<rss::Item> = Vec::new();
    let mut i: usize = 0;
    while i < n
        invariant
            0 <= i <= n == repositories@.len(),
            forall|k: int| 0 <= k < repositories@.len() ==> repositories@[k].latest_release
                is Some,
            forall|k: int| 0 <= k < repositories@.len() ==> MIN_RFC2822_MILLIS
                <= repo_timestamp(#[trigger] repositories@[k]) < MAX_RFC2822_MILLIS,
            items@.len() == i,
            forall|k: int| 0 <= k < i ==> item_title_text(#[trigger] items@[k])
                == item_title_of(repositories@[k]),
            forall|k: int| 0 <= k < i ==> item_link_text(#[trigger] items@[k])
                == repositories@[k].latest_release->0.url@,
            forall|k: int| 0 <= k < i ==> item_pub_date_text(#[trigger] items@[k])
                == rfc2822_of(repo_timestamp(repositories@[k]) as int),
            forall|k: int| 0 <= k < i ==> item_description_text(#[trigger] items@[k])
                == item_body_of(repositories@[k]),
        decreases n - i,
    {
        let repo = &repositories[i];
        let title = item_title(repo);
        let body = item_body(repo);
        match &repo.latest_release {
            Some(rel) => {
                let date = format_rfc2822(rel.timestamp());
                let item = rss_item(title.as_str(), rel.url.as_str(), date.as_str(),
                    body.as_str());
                items.push(item);
            },
            None => {
                proof {
                    assert(false);
                }
            },
        }
        i = i + 1;
    }
    rss_channel("GitHub Releases", items, ttl_cache, "1970-01-01T00:00+00:00")
}

} // verus!
