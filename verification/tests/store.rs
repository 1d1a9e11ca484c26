use feedcore::state::{PersistentState, ReadLaterRequest, StoreError};
use feedcore::FeedItem;

fn item(title: &str, link: &str) -> FeedItem {
    FeedItem {
        title: title.to_string(),
        link: link.to_string(),
        comments: "c".to_string(),
        description: "d".to_string(),
    }
}

#[test]
fn add_duplicate_feed_keeps_length() {
    let mut st = PersistentState::empty();
    assert!(st.add_feed("http://a.example/rss".to_string()).is_ok());
    let r = st.add_feed("http://a.example/rss".to_string());
    assert!(matches!(r, Err(StoreError::DuplicateFeed)));
    assert_eq!(st.feeds.len(), 1);
}

#[test]
fn remove_feed_out_of_range_leaves_state() {
    let mut st = PersistentState::empty();
    st.add_feed("http://a.example/rss".to_string()).unwrap();
    let r = st.remove_feed(1);
    assert!(matches!(r, Err(StoreError::InvalidFeedIndex)));
    assert_eq!(st.feeds.len(), 1);
    assert_eq!(st.feeds[0], "http://a.example/rss");
}

#[test]
fn remove_feed_shifts_later_entries() {
    let mut st = PersistentState::empty();
    st.add_feed("http://a".to_string()).unwrap();
    st.add_feed("http://b".to_string()).unwrap();
    st.add_feed("http://c".to_string()).unwrap();
    let removed = st.remove_feed(1).unwrap();
    assert_eq!(removed, "http://b");
    assert_eq!(st.feeds.len(), 2);
    assert_eq!(st.feeds[0], "http://a");
    assert_eq!(st.feeds[1], "http://c");
}

#[test]
fn two_distinct_adds_both_succeed_in_order() {
    let mut st = PersistentState::empty();
    assert!(st.add_feed("http://one".to_string()).is_ok());
    assert!(st.add_feed("http://two".to_string()).is_ok());
    assert_eq!(st.feeds.len(), 2);
    assert_eq!(st.feeds[0], "http://one");
    assert_eq!(st.feeds[1], "http://two");
}

#[test]
fn read_later_rejects_both_shapes_at_once() {
    let mut st = PersistentState::empty();
    let r = st.add_read_later(ReadLaterRequest {
        item: Some(item("t", "http://x")),
        title: Some("t".to_string()),
        url: Some("http://x".to_string()),
    });
    assert!(matches!(r, Err(StoreError::InvalidPayload)));
    assert_eq!(st.read_later.len(), 0);
}

#[test]
fn read_later_rejects_neither_shape() {
    let mut st = PersistentState::empty();
    let r = st.add_read_later(ReadLaterRequest { item: None, title: None, url: None });
    assert!(matches!(r, Err(StoreError::InvalidPayload)));
    assert_eq!(st.read_later.len(), 0);
}

#[test]
fn read_later_rejects_title_without_url() {
    let mut st = PersistentState::empty();
    let r = st.add_read_later(ReadLaterRequest { item: None, title: Some("t".to_string()), url: None });
    assert!(matches!(r, Err(StoreError::InvalidPayload)));
}

#[test]
fn read_later_custom_link_gets_defaults() {
    let mut st = PersistentState::empty();
    let r = st.add_read_later(ReadLaterRequest {
        item: None,
        title: Some("My page".to_string()),
        url: Some("http://page".to_string()),
    });
    assert!(r.is_ok());
    assert_eq!(st.read_later.len(), 1);
    assert_eq!(st.read_later[0].title, "My page");
    assert_eq!(st.read_later[0].link, "http://page");
    assert_eq!(st.read_later[0].comments, "No Comments Link");
    assert_eq!(st.read_later[0].description, "Custom link added by user");
}

#[test]
fn read_later_rejects_duplicate_link() {
    let mut st = PersistentState::empty();
    st.add_read_later(ReadLaterRequest { item: Some(item("a", "http://same")), title: None, url: None })
        .unwrap();
    let r = st.add_read_later(ReadLaterRequest { item: Some(item("b", "http://same")), title: None, url: None });
    assert!(matches!(r, Err(StoreError::DuplicateReadLater)));
    assert_eq!(st.read_later.len(), 1);
    assert_eq!(st.read_later[0].title, "a");
}

#[test]
fn remove_read_later_out_of_range_and_shift() {
    let mut st = PersistentState::empty();
    st.add_read_later(ReadLaterRequest { item: Some(item("a", "http://1")), title: None, url: None }).unwrap();
    st.add_read_later(ReadLaterRequest { item: Some(item("b", "http://2")), title: None, url: None }).unwrap();
    assert!(matches!(st.remove_read_later(2), Err(StoreError::InvalidItemIndex)));
    assert_eq!(st.read_later.len(), 2);
    let removed = st.remove_read_later(0).unwrap();
    assert_eq!(removed.title, "a");
    assert_eq!(st.read_later.len(), 1);
    assert_eq!(st.read_later[0].title, "b");
}

#[test]
fn feed_url_resolves_or_refuses() {
    let mut st = PersistentState::empty();
    st.add_feed("http://a".to_string()).unwrap();
    assert_eq!(st.feed_url(0), Some("http://a".to_string()));
    assert_eq!(st.feed_url(1), None);
}

#[test]
fn listing_copies_the_lists() {
    let mut st = PersistentState::empty();
    st.add_feed("http://a".to_string()).unwrap();
    st.add_read_later(ReadLaterRequest { item: Some(item("t", "http://x")), title: None, url: None }).unwrap();
    let urls = st.feed_urls();
    assert_eq!(urls, vec!["http://a".to_string()]);
    let items = st.read_later_items();
    assert_eq!(items.len(), 1);
    assert_eq!(items[0].title, "t");
    assert_eq!(items[0].link, "http://x");
}
