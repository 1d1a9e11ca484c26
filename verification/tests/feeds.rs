use feedcore::feed::{entry_link, fetch_feed_outcome, parse_feed, parse_feed_raw, EntryError, FeedError};
use feedcore::service::{content_response, entry_content_step, fetch_feed_response, invalid_feed_index};

const RSS_DOC: &str = "<rss version=\"2.0\"><channel><title>t</title><link>http://site</link><description>d</description><item><title>First</title><link>http://site/1</link><comments>http://site/1#c</comments><description>D1</description></item><item></item></channel></rss>";

#[test]
fn parse_feed_normalizes_every_entry() {
    let items = parse_feed(RSS_DOC).expect("the document is a feed");
    assert_eq!(items.len(), 2);
    assert_eq!(items[0].title, "First");
    assert_eq!(items[0].link, "http://site/1");
    assert_eq!(items[0].comments, "http://site/1#c");
    assert_eq!(items[0].description, "D1");
    assert_eq!(items[1].title, "No Title");
    assert_eq!(items[1].link, "No Link");
    assert_eq!(items[1].comments, "No Comments Link");
    assert_eq!(items[1].description, "No Description");
}

#[test]
fn parse_feed_refuses_non_feed_text() {
    let r = parse_feed("this is not xml at all");
    assert!(matches!(r, Err(FeedError::MalformedFeed)));
}

#[test]
fn unreachable_is_network_error_never_parse_error() {
    let r = fetch_feed_outcome(None);
    assert!(matches!(r, Err(FeedError::NetworkUnreachable)));
}

#[test]
fn malformed_is_parse_error_never_network_error() {
    let r = fetch_feed_outcome(Some("<html>not a feed</html>".to_string()));
    assert!(matches!(r, Err(FeedError::MalformedFeed)));
}

#[test]
fn reachable_feed_yields_entries() {
    let r = fetch_feed_outcome(Some(RSS_DOC.to_string()));
    assert_eq!(r.expect("a feed").len(), 2);
}

#[test]
fn entry_link_tells_bad_index_from_missing_link() {
    let raws = parse_feed_raw(RSS_DOC).unwrap();
    assert_eq!(entry_link(&raws, 0).unwrap(), "http://site/1");
    assert!(matches!(entry_link(&raws, 1), Err(EntryError::NoLink)));
    assert!(matches!(entry_link(&raws, 5), Err(EntryError::BadIndex)));
}

#[test]
fn fetch_feed_response_messages() {
    let r = fetch_feed_response(None);
    assert!(!r.success);
    assert!(r.data.is_none());
    assert_eq!(r.error.as_deref(), Some("Failed to fetch RSS feed."));

    let r = fetch_feed_response(Some("garbage".to_string()));
    assert!(!r.success);
    assert_eq!(r.error.as_deref(), Some("Failed to parse RSS feed."));

    let r = fetch_feed_response(Some(RSS_DOC.to_string()));
    assert!(r.success);
    assert!(r.error.is_none());
    assert_eq!(r.data.unwrap().len(), 2);
}

#[test]
fn entry_content_step_covers_every_refusal() {
    let r = entry_content_step(None, 0);
    assert_eq!(r.unwrap_err().error.as_deref(), Some("Failed to fetch RSS feed."));

    let r = entry_content_step(Some("garbage".to_string()), 0);
    assert_eq!(r.unwrap_err().error.as_deref(), Some("Failed to parse RSS feed."));

    let r = entry_content_step(Some(RSS_DOC.to_string()), 7);
    assert_eq!(r.unwrap_err().error.as_deref(), Some("Invalid item index."));

    let r = entry_content_step(Some(RSS_DOC.to_string()), 1);
    assert_eq!(r.unwrap_err().error.as_deref(), Some("No link available for this item."));

    let r = entry_content_step(Some(RSS_DOC.to_string()), 0);
    assert_eq!(r.unwrap(), "http://site/1");
}

#[test]
fn content_response_collapses_fetch_and_extract_failure() {
    let r = content_response(None);
    assert!(!r.success);
    assert_eq!(r.error.as_deref(), Some("Failed to fetch webpage content."));

    let r = content_response(Some("<span>nope</span>".to_string()));
    assert!(!r.success);
    assert_eq!(r.error.as_deref(), Some("Failed to fetch webpage content."));

    let r = content_response(Some("<p>Hi there</p>".to_string()));
    assert!(r.success);
    assert_eq!(r.data.as_deref(), Some("Hi there"));
    assert!(r.error.is_none());
}

#[test]
fn invalid_feed_index_message() {
    let r: feedcore::ApiResponse<String> = invalid_feed_index();
    assert!(!r.success);
    assert!(r.data.is_none());
    assert_eq!(r.error.as_deref(), Some("Invalid feed index!"));
}
