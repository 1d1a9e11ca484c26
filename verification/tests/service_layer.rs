use feedcore::service::{
    add_read_later_response, list_feeds_response, list_read_later_response, remove_feed_response,
    remove_read_later_response,
};
use feedcore::state::{PersistentState, ReadLaterRequest};
use feedcore::FeedItem;

#[test]
fn list_responses_copy_the_state() {
    let mut st = PersistentState::empty();
    st.add_feed("http://a".to_string()).unwrap();
    let r = list_feeds_response(&st);
    assert!(r.success && r.error.is_none());
    assert_eq!(r.data.unwrap(), vec!["http://a".to_string()]);
    let r = list_read_later_response(&st);
    assert!(r.success);
    assert_eq!(r.data.unwrap().len(), 0);
}

#[test]
fn remove_feed_response_messages_and_file() {
    let mut st = PersistentState::empty();
    st.add_feed("http://a".to_string()).unwrap();
    let (bad, file) = remove_feed_response(&mut st, 3);
    assert_eq!(bad.error.as_deref(), Some("Invalid feed index!"));
    assert!(file.is_none());
    assert_eq!(st.feeds.len(), 1);
    let (ok, file) = remove_feed_response(&mut st, 0);
    assert!(ok.success);
    assert_eq!(file.as_deref(), Some("{\"feeds\":[],\"read_later\":[]}"));
    assert_eq!(st.feeds.len(), 0);
}

#[test]
fn add_read_later_response_messages() {
    let mut st = PersistentState::empty();
    let (bad, file) = add_read_later_response(
        &mut st,
        ReadLaterRequest { item: None, title: None, url: None },
    );
    assert_eq!(
        bad.error.as_deref(),
        Some("Invalid payload: provide either an item or both title and URL"),
    );
    assert!(file.is_none());

    let request = ReadLaterRequest {
        item: Some(FeedItem {
            title: "t".to_string(),
            link: "http://x".to_string(),
            comments: "c".to_string(),
            description: "d".to_string(),
        }),
        title: None,
        url: None,
    };
    let (ok, file) = add_read_later_response(&mut st, request);
    assert!(ok.success && ok.data.is_none());
    assert!(file.is_some());

    let again = ReadLaterRequest {
        item: Some(FeedItem {
            title: "other".to_string(),
            link: "http://x".to_string(),
            comments: "c".to_string(),
            description: "d".to_string(),
        }),
        title: None,
        url: None,
    };
    let (dup, file) = add_read_later_response(&mut st, again);
    assert_eq!(dup.error.as_deref(), Some("Item already in read later list!"));
    assert!(file.is_none());
    assert_eq!(st.read_later.len(), 1);
}

#[test]
fn remove_read_later_response_messages() {
    let mut st = PersistentState::empty();
    let (bad, _) = remove_read_later_response(&mut st, 0);
    assert_eq!(bad.error.as_deref(), Some("Invalid item index!"));
    let request = ReadLaterRequest {
        item: Some(FeedItem {
            title: "t".to_string(),
            link: "http://x".to_string(),
            comments: "c".to_string(),
            description: "d".to_string(),
        }),
        title: None,
        url: None,
    };
    add_read_later_response(&mut st, request);
    let (ok, file) = remove_read_later_response(&mut st, 0);
    assert!(ok.success);
    assert_eq!(file.as_deref(), Some("{\"feeds\":[],\"read_later\":[]}"));
    assert_eq!(st.read_later.len(), 0);
}
