use vstd::prelude::*;
use crate::codec::{push_lit, quoted, string_from_chars};

verus! {

// ---------------------------------------------------------------------------
// The summarization pass-through: the request document sent to the
// external service is built and escaped by the verified encoder, and the
// answer is read through one trusted wrapper over serde_json whose result
// is named, so that the classification below owes a success exactly when
// the answer carries non-empty generated text.
// ---------------------------------------------------------------------------
/// Whether `s` parses as a JSON document. A pure function of the text.
pub uninterp spec fn json_parses(s: Seq<char>) -> bool;

/// The generated text of the service's answer: the string at
/// choices[0].message.content of the document parsed from `s`, or `None`
/// when that path is absent or does not hold a string. Meaningful only
/// when `json_parses(s)`; a pure function of the text.
pub uninterp spec fn answer_of(s: Seq<char>) -> Option<Seq<char>>;

/// Relies on serde_json 1.0: from_str for Value (Err exactly when the
/// text is not a JSON document), Value::get with a key and with an index
/// (the object member or array element, or None), and Value::as_str (the
/// text of a string value, or None). The outcome depends on the text
/// alone.
#[verifier::external_body]
fn read_answer(body: &str) -> (r: Option<Option<String>>)
    ensures
        r is Some <==> json_parses(body@),
        r matches Some(a) ==> match answer_of(body@) {
            Some(t) => a matches Some(x) && x@ == t,
            None => a is None,
        },
{
    let v: serde_json::Value = match serde_json::from_str(body) {
        Ok(v) => v,
        Err(_) => return None,
    };
    let text = v.get("choices")
        .and_then(|c| c.get(0))
        .and_then(|first| first.get("message"))
        .and_then(|m| m.get("content"))
        .and_then(|t| t.as_str());
    Some(text.map(|s| s.to_string()))
}

/// Whether the answer text of the document `s` is present and non-empty:
/// the one case in which a summary is owed.
pub open spec fn has_summary(s: Seq<char>) -> bool {
    json_parses(s) && (answer_of(s) matches Some(t) && t.len() > 0)
}

/// Why no summary came back: the request never got an answer, the answer
/// was not a JSON document, or the expected field was missing or empty.
/// Each is reported with its own message.
#[derive(Debug)]
pub enum SummarizeError {
    /// The request to the external service failed in transport.
    Transport,
    /// The answer was not a JSON document.
    BadResponse,
    /// The answer carried no generated text, or empty text.
    EmptySummary,
}

/// Classifies the extracted field: a missing field counts the same as an
/// empty one, and only non-empty text is a summary.
pub fn summary_outcome(extracted: Option<String>) -> (r: Result<String, SummarizeError>)
    ensures
        (extracted matches Some(s) && s@.len() > 0) ==> (r matches Ok(u) && u@ == extracted->Some_0@),
        (extracted is None || extracted->Some_0@.len() == 0) ==> (r matches Err(e) && e
            == SummarizeError::EmptySummary),
        r is Ok <==> (extracted matches Some(s) && s@.len() > 0),
{
    match extracted {
        None => Err(SummarizeError::EmptySummary),
        Some(s) => {
            if s.as_str().unicode_len() == 0 {
                Err(SummarizeError::EmptySummary)
            } else {
                Ok(s)
            }
        },
    }
}

/// Reads the service's answer: a non-document is refused as
/// `BadResponse`, a document without non-empty generated text as
/// `EmptySummary`, and a document with non-empty text at
/// choices[0].message.content yields exactly that text.
pub fn summary_from_response(body: &str) -> (r: Result<String, SummarizeError>)
    ensures
        !json_parses(body@) <==> (r matches Err(e) && e == SummarizeError::BadResponse),
        has_summary(body@) ==> (r matches Ok(u) && u@ == answer_of(body@)->Some_0),
        json_parses(body@) && !has_summary(body@) ==> (r matches Err(e) && e == SummarizeError::EmptySummary),
        r is Ok <==> has_summary(body@),
        r matches Ok(u) ==> u@.len() > 0,
{
    match read_answer(body) {
        None => Err(SummarizeError::BadResponse),
        Some(extracted) => match summary_outcome(extracted) {
            Ok(u) => Ok(u),
            Err(_) => Err(SummarizeError::EmptySummary),
        },
    }
}

/// Classifies one whole summarization attempt: no answer at all is a
/// transport failure, anything else is read as an answer, and a summary
/// is owed exactly when the answer carries non-empty generated text.
pub fn summarize_outcome(body: Option<String>) -> (r: Result<String, SummarizeError>)
    ensures
        body is None <==> (r matches Err(e) && e == SummarizeError::Transport),
        body matches Some(b) && !json_parses(b@) ==> (r matches Err(e) && e == SummarizeError::BadResponse),
        body is Some && has_summary(body->Some_0@) ==> (r matches Ok(u) && u@ == answer_of(
            body->Some_0@,
        )->Some_0),
        body is Some && json_parses(body->Some_0@) && !has_summary(body->Some_0@) ==> (r matches Err(e) && e
            == SummarizeError::EmptySummary),
        r matches Ok(u) ==> u@.len() > 0,
{
    match body {
        None => Err(SummarizeError::Transport),
        Some(b) => summary_from_response(b.as_str()),
    }
}

/// The fixed request document for one summarization: the model, the fixed
/// system instruction, and the user message that embeds the article text
/// after the fixed prompt.
pub open spec fn summarize_request(content: Seq<char>) -> Seq<char> {
    "{\"model\":\"gpt-4o-mini\",\"messages\":[{\"role\":\"system\",\"content\":\"You are a helpful assistant that summarizes text.\"},{\"role\":\"user\",\"content\":"@
        + quoted("Summarize the following article:\n\n"@ + content) + "}]}"@
}

/// Writes the request document for `content`, with the article text
/// escaped by the verified encoder.
pub fn build_summarize_request(content: &str) -> (r: String)
    ensures
        r@ == summarize_request(content@),
{
    let prompt = String::from_str("Summarize the following article:\n\n").concat(content);
    let mut out: Vec<char> = Vec::new();
    push_lit(
        &mut out,
        "{\"model\":\"gpt-4o-mini\",\"messages\":[{\"role\":\"system\",\"content\":\"You are a helpful assistant that summarizes text.\"},{\"role\":\"user\",\"content\":",
    );
    crate::codec::push_quoted(&mut out, prompt.as_str());
    push_lit(&mut out, "}]}");
    proof {
        assert(out@ =~= summarize_request(content@));
    }
    string_from_chars(&out)
}

} // verus!
