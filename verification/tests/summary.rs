use feedcore::service::{add_feed_response, missing_api_key_response, summarize_response};
use feedcore::state::PersistentState;
use feedcore::summarize::{
    build_summarize_request, summarize_outcome, summary_from_response, summary_outcome, SummarizeError,
};

#[test]
fn request_document_is_exact() {
    let req = build_summarize_request("Hi");
    assert_eq!(
        req,
        "{\"model\":\"gpt-4o-mini\",\"messages\":[{\"role\":\"system\",\"content\":\"You are a helpful assistant that summarizes text.\"},{\"role\":\"user\",\"content\":\"Summarize the following article:\\n\\nHi\"}]}"
    );
}

#[test]
fn request_document_is_valid_json_with_escaped_content() {
    let req = build_summarize_request("He said \"no\"\nand left.");
    let v: serde_json::Value = serde_json::from_str(&req).expect("the request must be JSON");
    assert_eq!(v["model"].as_str().unwrap(), "gpt-4o-mini");
    assert_eq!(
        v["messages"][0]["content"].as_str().unwrap(),
        "You are a helpful assistant that summarizes text."
    );
    assert_eq!(
        v["messages"][1]["content"].as_str().unwrap(),
        "Summarize the following article:\n\nHe said \"no\"\nand left."
    );
}

#[test]
fn answer_with_text_is_a_summary() {
    let body = "{\"choices\":[{\"message\":{\"content\":\"A short summary.\"}}]}";
    assert_eq!(summary_from_response(body).unwrap(), "A short summary.");
}

#[test]
fn answer_without_the_field_is_an_empty_summary() {
    let body = "{\"choices\":[]}";
    assert!(matches!(summary_from_response(body), Err(SummarizeError::EmptySummary)));
    let body = "{\"choices\":[{\"message\":{}}]}";
    assert!(matches!(summary_from_response(body), Err(SummarizeError::EmptySummary)));
}

#[test]
fn answer_with_empty_text_is_an_empty_summary() {
    let body = "{\"choices\":[{\"message\":{\"content\":\"\"}}]}";
    assert!(matches!(summary_from_response(body), Err(SummarizeError::EmptySummary)));
}

#[test]
fn answer_with_non_string_content_is_an_empty_summary() {
    let body = "{\"choices\":[{\"message\":{\"content\":42}}]}";
    assert!(matches!(summary_from_response(body), Err(SummarizeError::EmptySummary)));
}

#[test]
fn non_json_answer_is_a_response_error() {
    assert!(matches!(summary_from_response("not json"), Err(SummarizeError::BadResponse)));
}

#[test]
fn empty_text_is_no_summary() {
    assert!(matches!(summary_outcome(Some("".to_string())), Err(SummarizeError::EmptySummary)));
    assert!(matches!(summary_outcome(None), Err(SummarizeError::EmptySummary)));
    assert_eq!(summary_outcome(Some("ok".to_string())).unwrap(), "ok");
}

#[test]
fn transport_failure_is_its_own_error() {
    assert!(matches!(summarize_outcome(None), Err(SummarizeError::Transport)));
}

#[test]
fn summarize_response_messages() {
    let r = summarize_response(None);
    assert_eq!(r.error.as_deref(), Some("Failed to communicate with OpenAI API"));

    let r = summarize_response(Some("broken".to_string()));
    assert_eq!(r.error.as_deref(), Some("Failed to parse OpenAI API response"));

    let r = summarize_response(Some("{\"choices\":[]}".to_string()));
    assert_eq!(r.error.as_deref(), Some("Failed to generate summary"));

    let r = summarize_response(Some("{\"choices\":[{\"message\":{\"content\":\"S.\"}}]}".to_string()));
    assert!(r.success);
    assert_eq!(r.data.as_deref(), Some("S."));

    let r = missing_api_key_response();
    assert_eq!(r.error.as_deref(), Some("OpenAI API key not configured"));
}

#[test]
fn envelope_never_carries_payload_and_error_together() {
    let mut st = PersistentState::empty();
    let (ok, file) = add_feed_response(&mut st, "http://a".to_string());
    assert!(ok.success && ok.error.is_none());
    assert_eq!(file.as_deref(), Some("{\"feeds\":[\"http://a\"],\"read_later\":[]}"));
    let (dup, file) = add_feed_response(&mut st, "http://a".to_string());
    assert!(!dup.success && dup.data.is_none());
    assert_eq!(dup.error.as_deref(), Some("Feed already exists!"));
    assert!(file.is_none());
}
