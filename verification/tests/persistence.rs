use feedcore::codec::{decode_state, encode_state};
use feedcore::service::{load_state, LoadOutcome};
use feedcore::state::{PersistentState, ReadLaterRequest};
use feedcore::FeedItem;

#[test]
fn empty_state_encodes_to_fixed_document() {
    let st = PersistentState::empty();
    assert_eq!(encode_state(&st), "{\"feeds\":[],\"read_later\":[]}");
}

#[test]
fn round_trip_plain_state() {
    let mut st = PersistentState::empty();
    st.add_feed("http://a.example/rss".to_string()).unwrap();
    st.add_feed("http://b.example/atom".to_string()).unwrap();
    st.add_read_later(ReadLaterRequest {
        item: Some(FeedItem {
            title: "An article".to_string(),
            link: "http://a.example/1".to_string(),
            comments: "http://a.example/1#c".to_string(),
            description: "Something short".to_string(),
        }),
        title: None,
        url: None,
    })
    .unwrap();
    let file = encode_state(&st);
    let back = decode_state(&file).expect("the written file must parse");
    assert_eq!(back.feeds, st.feeds);
    assert_eq!(back.read_later.len(), 1);
    assert_eq!(back.read_later[0].title, "An article");
    assert_eq!(back.read_later[0].link, "http://a.example/1");
    assert_eq!(back.read_later[0].comments, "http://a.example/1#c");
    assert_eq!(back.read_later[0].description, "Something short");
}

#[test]
fn round_trip_keeps_special_characters() {
    let mut st = PersistentState::empty();
    st.add_feed("http://x/?q=\"a\\b\"".to_string()).unwrap();
    st.add_read_later(ReadLaterRequest {
        item: Some(FeedItem {
            title: "line1\nline2\ttab\rret".to_string(),
            link: "http://y".to_string(),
            comments: "\u{1}\u{1f}".to_string(),
            description: "caf\u{e9} \u{1f600}".to_string(),
        }),
        title: None,
        url: None,
    })
    .unwrap();
    let file = encode_state(&st);
    let back = decode_state(&file).expect("the written file must parse");
    assert_eq!(back.feeds[0], "http://x/?q=\"a\\b\"");
    assert_eq!(back.read_later[0].title, "line1\nline2\ttab\rret");
    assert_eq!(back.read_later[0].comments, "\u{1}\u{1f}");
    assert_eq!(back.read_later[0].description, "caf\u{e9} \u{1f600}");
}

#[test]
fn written_file_is_valid_json() {
    let mut st = PersistentState::empty();
    st.add_feed("http://x/?q=\"a\\b\"".to_string()).unwrap();
    st.add_read_later(ReadLaterRequest {
        item: Some(FeedItem {
            title: "line1\nline2\u{1}".to_string(),
            link: "http://y".to_string(),
            comments: "c".to_string(),
            description: "d".to_string(),
        }),
        title: None,
        url: None,
    })
    .unwrap();
    let file = encode_state(&st);
    let v: serde_json::Value = serde_json::from_str(&file).expect("the file must be JSON");
    assert_eq!(v["feeds"][0].as_str().unwrap(), "http://x/?q=\"a\\b\"");
    assert_eq!(v["read_later"][0]["title"].as_str().unwrap(), "line1\nline2\u{1}");
    assert_eq!(v["read_later"][0]["link"].as_str().unwrap(), "http://y");
}

#[test]
fn round_trip_after_removals() {
    let mut st = PersistentState::empty();
    st.add_feed("http://a".to_string()).unwrap();
    st.add_feed("http://b".to_string()).unwrap();
    st.add_feed("http://c".to_string()).unwrap();
    st.remove_feed(0).unwrap();
    let back = decode_state(&encode_state(&st)).unwrap();
    assert_eq!(back.feeds, vec!["http://b".to_string(), "http://c".to_string()]);
    assert_eq!(back.read_later.len(), 0);
}

#[test]
fn garbage_does_not_decode() {
    assert!(decode_state("not a state file").is_none());
    assert!(decode_state("").is_none());
    assert!(decode_state("{\"feeds\":[],\"read_later\":[]} trailing").is_none());
}

#[test]
fn load_state_covers_all_three_cases() {
    let (st, outcome) = load_state(None);
    assert!(matches!(outcome, LoadOutcome::NoFile));
    assert_eq!(st.feeds.len(), 0);
    assert_eq!(st.read_later.len(), 0);

    let (st, outcome) = load_state(Some("{\"feeds\":[\"http://a\"],\"read_later\":[]}"));
    assert!(matches!(outcome, LoadOutcome::Loaded));
    assert_eq!(st.feeds, vec!["http://a".to_string()]);

    let (st, outcome) = load_state(Some("{ corrupted"));
    assert!(matches!(outcome, LoadOutcome::CorruptFile));
    assert_eq!(st.feeds.len(), 0);
    assert_eq!(st.read_later.len(), 0);
}
