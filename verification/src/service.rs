use vstd::prelude::*;
use crate::codec::{enc_state, encode_state, decode_state, parse_state, item_views};
use crate::extract::{extract_content, extraction};
use crate::feed::{fetch_feed_outcome, parse_feed_raw, entry_link, rss_entries, norm_view, EntryError};
use crate::state::{
    candidate_item, has_link, has_url, spec_add_feed, PersistentState, ReadLaterRequest, StoreError,
};
use crate::summarize::{summarize_outcome, SummarizeError};

verus! {

// ---------------------------------------------------------------------------
// The orchestration layer: one function per operation of the transport
// boundary. Each takes the state and the plain values that the transport
// and the fetchers hand in, performs the decision under contract, and
// returns the uniform response envelope; a mutating operation also hands
// back the whole encoded file to persist. The envelope never carries a
// payload and an error at once.
// ---------------------------------------------------------------------------
/// The uniform response envelope: a success flag, an optional payload,
/// and an optional human-readable error; never both at once.
#[derive(Debug)]
pub struct ApiResponse<T> {
    pub success: bool,
    pub data: Option<T>,
    pub error: Option<String>,
}

impl<T> ApiResponse<T> {
    /// The envelope's invariant: a payload only with success, an error
    /// only without it, never both.
    pub open spec fn wf(&self) -> bool {
        &&& !(self.data is Some && self.error is Some)
        &&& (self.success ==> self.error is None)
        &&& (!self.success ==> self.data is None)
    }

    /// A successful response carrying a payload.
    pub fn ok_with(data: T) -> (r: ApiResponse<T>)
        ensures
            r.success,
            r.data matches Some(d) && d == data,
            r.error is None,
            r.wf(),
    {
        ApiResponse { success: true, data: Some(data), error: None }
    }

    /// A successful response without a payload, as the mutating
    /// operations answer.
    pub fn ok_empty() -> (r: ApiResponse<T>)
        ensures
            r.success,
            r.data is None,
            r.error is None,
            r.wf(),
    {
        ApiResponse { success: true, data: None, error: None }
    }

    /// A failed response carrying a message.
    pub fn failed(msg: String) -> (r: ApiResponse<T>)
        ensures
            !r.success,
            r.data is None,
            r.error matches Some(m) && m@ == msg@,
            r.wf(),
    {
        ApiResponse { success: false, data: None, error: Some(msg) }
    }
}

/// Whether `r` reports failure with exactly the message `msg`.
pub open spec fn reports_failure<T>(r: ApiResponse<T>, msg: Seq<char>) -> bool {
    &&& !r.success
    &&& r.data is None
    &&& r.error matches Some(m) && m@ == msg
}

/// Whether `r` reports success (with or without a payload).
pub open spec fn reports_success<T>(r: ApiResponse<T>) -> bool {
    &&& r.success
    &&& r.error is None
}

/// Lists the subscribed feed URLs: a copy of the current ordered list.
pub fn list_feeds_response(st: &PersistentState) -> (r: ApiResponse<Vec<String>>)
    ensures
        reports_success(r),
        r.data matches Some(v) && v@.len() == st@.feeds.len(),
        r.data matches Some(v) && (forall|i: int| 0 <= i < v@.len() ==> v@[i]@ == st@.feeds[i]),
        r.wf(),
{
    ApiResponse::ok_with(st.feed_urls())
}

/// Lists the read-later items: a copy of the current ordered list.
pub fn list_read_later_response(st: &PersistentState) -> (r: ApiResponse<Vec<crate::state::FeedItem>>)
    ensures
        reports_success(r),
        r.data matches Some(v) && v@.len() == st@.read_later.len(),
        r.data matches Some(v) && (forall|i: int| 0 <= i < v@.len() ==> v@[i]@ == st@.read_later[i]),
        r.wf(),
{
    ApiResponse::ok_with(st.read_later_items())
}

/// Adds a feed URL and, on success, hands back the whole encoded file to
/// persist; a duplicate is refused with its message and nothing changes.
pub fn add_feed_response(st: &mut PersistentState, url: String) -> (r: (ApiResponse<()>, Option<String>))
    ensures
        final(st)@ == spec_add_feed(old(st)@, url@),
        !has_url(old(st)@.feeds, url@) ==> reports_success(r.0) && r.0.data is None && (r.1 matches Some(f)
            && f@ == enc_state(final(st)@)),
        has_url(old(st)@.feeds, url@) ==> reports_failure(r.0, "Feed already exists!"@) && r.1 is None,
        r.0.wf(),
{
    match st.add_feed(url) {
        Ok(_) => {
            let file = encode_state(st);
            (ApiResponse::ok_empty(), Some(file))
        },
        Err(_) => (ApiResponse::failed(String::from_str("Feed already exists!")), None),
    }
}

/// Removes the feed at an index and, on success, hands back the encoded
/// file; an out-of-range index is refused with its message.
pub fn remove_feed_response(st: &mut PersistentState, index: usize) -> (r: (ApiResponse<()>, Option<String>))
    ensures
        index < old(st)@.feeds.len() ==> {
            &&& final(st)@.feeds == old(st)@.feeds.remove(index as int)
            &&& final(st)@.read_later == old(st)@.read_later
            &&& reports_success(r.0) && r.0.data is None
            &&& r.1 matches Some(f) && f@ == enc_state(final(st)@)
        },
        index >= old(st)@.feeds.len() ==> {
            &&& final(st)@ == old(st)@
            &&& reports_failure(r.0, "Invalid feed index!"@)
            &&& r.1 is None
        },
        r.0.wf(),
{
    match st.remove_feed(index) {
        Ok(_) => {
            let file = encode_state(st);
            (ApiResponse::ok_empty(), Some(file))
        },
        Err(_) => (ApiResponse::failed(String::from_str("Invalid feed index!")), None),
    }
}

/// Saves a read-later item and, on success, hands back the encoded file;
/// an invalid request shape and a duplicate link are refused, each with
/// its own message.
pub fn add_read_later_response(st: &mut PersistentState, request: ReadLaterRequest) -> (r: (
    ApiResponse<()>,
    Option<String>,
))
    ensures
        candidate_item(request@) is None ==> final(st)@ == old(st)@ && reports_failure(
            r.0,
            "Invalid payload: provide either an item or both title and URL"@,
        ) && r.1 is None,
        candidate_item(request@) matches Some(it) && has_link(old(st)@.read_later, it.link) ==> final(st)@ == old(
            st,
        )@ && reports_failure(r.0, "Item already in read later list!"@) && r.1 is None,
        candidate_item(request@) is Some && !has_link(
            old(st)@.read_later,
            candidate_item(request@)->Some_0.link,
        ) ==> {
            &&& final(st)@.read_later == old(st)@.read_later.push(candidate_item(request@)->Some_0)
            &&& final(st)@.feeds == old(st)@.feeds
            &&& reports_success(r.0) && r.0.data is None
            &&& r.1 matches Some(f) && f@ == enc_state(final(st)@)
        },
        r.0.wf(),
{
    match st.add_read_later(request) {
        Ok(_) => {
            let file = encode_state(st);
            (ApiResponse::ok_empty(), Some(file))
        },
        Err(StoreError::InvalidPayload) => (
            ApiResponse::failed(String::from_str("Invalid payload: provide either an item or both title and URL")),
            None,
        ),
        Err(_) => (ApiResponse::failed(String::from_str("Item already in read later list!")), None),
    }
}

/// Deletes the read-later item at an index and, on success, hands back
/// the encoded file; an out-of-range index is refused with its message.
pub fn remove_read_later_response(st: &mut PersistentState, index: usize) -> (r: (
    ApiResponse<()>,
    Option<String>,
))
    ensures
        index < old(st)@.read_later.len() ==> {
            &&& final(st)@.read_later == old(st)@.read_later.remove(index as int)
            &&& final(st)@.feeds == old(st)@.feeds
            &&& reports_success(r.0) && r.0.data is None
            &&& r.1 matches Some(f) && f@ == enc_state(final(st)@)
        },
        index >= old(st)@.read_later.len() ==> {
            &&& final(st)@ == old(st)@
            &&& reports_failure(r.0, "Invalid item index!"@)
            &&& r.1 is None
        },
        r.0.wf(),
{
    match st.remove_read_later(index) {
        Ok(_) => {
            let file = encode_state(st);
            (ApiResponse::ok_empty(), Some(file))
        },
        Err(_) => (ApiResponse::failed(String::from_str("Invalid item index!")), None),
    }
}

/// The refusal for a feed index past the end of the list, for the fetch
/// operations that resolve an index before any network work.
pub fn invalid_feed_index<T>() -> (r: ApiResponse<T>)
    ensures
        reports_failure(r, "Invalid feed index!"@),
        r.wf(),
{
    ApiResponse::failed(String::from_str("Invalid feed index!"))
}

/// Turns one feed fetch attempt into the response: no answer is a network
/// failure, a non-feed answer a parse failure — with distinct messages —
/// and a feed answer the normalized entry list.
pub fn fetch_feed_response(body: Option<String>) -> (r: ApiResponse<Vec<crate::state::FeedItem>>)
    ensures
        body is None ==> reports_failure(r, "Failed to fetch RSS feed."@),
        body is Some && rss_entries(body->Some_0@) is None ==> reports_failure(r, "Failed to parse RSS feed."@),
        body is Some && rss_entries(body->Some_0@) is Some ==> reports_success(r) && (r.data matches Some(v)
            && item_views(v@) == rss_entries(body->Some_0@)->Some_0.map_values(
            |e: crate::feed::RawView| norm_view(e),
        )),
        r.wf(),
{
    match fetch_feed_outcome(body) {
        Ok(items) => ApiResponse::ok_with(items),
        Err(crate::feed::FeedError::NetworkUnreachable) => ApiResponse::failed(
            String::from_str("Failed to fetch RSS feed."),
        ),
        Err(crate::feed::FeedError::MalformedFeed) => ApiResponse::failed(
            String::from_str("Failed to parse RSS feed."),
        ),
    }
}

/// The first half of the entry-content operation: reads the fetched feed
/// document again, range-checks the entry index, and hands out the
/// entry's link for the page fetch; every refusal carries the message of
/// its cause.
pub fn entry_content_step(body: Option<String>, item_index: usize) -> (r: Result<String, ApiResponse<String>>)
    ensures
        body is None ==> (r matches Err(a) && reports_failure(a, "Failed to fetch RSS feed."@)),
        body is Some && rss_entries(body->Some_0@) is None ==> (r matches Err(a) && reports_failure(
            a,
            "Failed to parse RSS feed."@,
        )),
        body is Some && rss_entries(body->Some_0@) is Some && item_index >= rss_entries(
            body->Some_0@,
        )->Some_0.len() ==> (r matches Err(a) && reports_failure(a, "Invalid item index."@)),
        body is Some && rss_entries(body->Some_0@) is Some && item_index < rss_entries(body->Some_0@)->Some_0.len()
            && rss_entries(body->Some_0@)->Some_0[item_index as int].link is None ==> (r matches Err(a)
            && reports_failure(a, "No link available for this item."@)),
        body is Some && rss_entries(body->Some_0@) is Some && item_index < rss_entries(body->Some_0@)->Some_0.len()
            && rss_entries(body->Some_0@)->Some_0[item_index as int].link is Some ==> (r matches Ok(u) && u@
            == rss_entries(body->Some_0@)->Some_0[item_index as int].link->Some_0),
{
    let b = match body {
        None => {
            return Err(ApiResponse::failed(String::from_str("Failed to fetch RSS feed.")));
        },
        Some(b) => b,
    };
    let raws = match parse_feed_raw(b.as_str()) {
        Err(_) => {
            return Err(ApiResponse::failed(String::from_str("Failed to parse RSS feed.")));
        },
        Ok(raws) => raws,
    };
    proof {
        assert(forall|i: int| 0 <= i < raws@.len() ==> raws@[i]@ == raws.deep_view()[i]);
    }
    match entry_link(&raws, item_index) {
        Err(EntryError::BadIndex) => Err(ApiResponse::failed(String::from_str("Invalid item index."))),
        Err(EntryError::NoLink) => Err(ApiResponse::failed(String::from_str("No link available for this item."))),
        Ok(u) => Ok(u),
    }
}

/// The second half of the entry-content operation: a fetched page goes
/// through the content extractor; a failed page fetch and a page without
/// extractable content are answered alike, as the page fetcher does not
/// tell them apart.
pub fn content_response(page: Option<String>) -> (r: ApiResponse<String>)
    ensures
        page is None ==> reports_failure(r, "Failed to fetch webpage content."@),
        page is Some && extraction(page->Some_0@) is None ==> reports_failure(
            r,
            "Failed to fetch webpage content."@,
        ),
        page is Some && extraction(page->Some_0@) is Some ==> reports_success(r) && (r.data matches Some(t) && t@
            == extraction(page->Some_0@)->Some_0),
        r.wf(),
{
    match page {
        None => ApiResponse::failed(String::from_str("Failed to fetch webpage content.")),
        Some(html) => match extract_content(html.as_str()) {
            None => ApiResponse::failed(String::from_str("Failed to fetch webpage content.")),
            Some(text) => ApiResponse::ok_with(text),
        },
    }
}

/// Turns one summarization attempt into the response: a summary is owed
/// exactly when the answer carries non-empty generated text, each failure
/// has its own message, and a transport failure is kept apart from an
/// empty or missing summary.
pub fn summarize_response(body: Option<String>) -> (r: ApiResponse<String>)
    ensures
        body is None ==> reports_failure(r, "Failed to communicate with OpenAI API"@),
        body is Some && !crate::summarize::json_parses(body->Some_0@) ==> reports_failure(
            r,
            "Failed to parse OpenAI API response"@,
        ),
        body is Some && crate::summarize::has_summary(body->Some_0@) ==> reports_success(r) && (
        r.data matches Some(t) && t@ == crate::summarize::answer_of(body->Some_0@)->Some_0),
        body is Some && crate::summarize::json_parses(body->Some_0@) && !crate::summarize::has_summary(
            body->Some_0@,
        ) ==> reports_failure(r, "Failed to generate summary"@),
        r.success ==> (r.data matches Some(t) && t@.len() > 0),
        r.wf(),
{
    match summarize_outcome(body) {
        Ok(text) => ApiResponse::ok_with(text),
        Err(SummarizeError::Transport) => ApiResponse::failed(
            String::from_str("Failed to communicate with OpenAI API"),
        ),
        Err(SummarizeError::BadResponse) => ApiResponse::failed(
            String::from_str("Failed to parse OpenAI API response"),
        ),
        Err(SummarizeError::EmptySummary) => ApiResponse::failed(String::from_str("Failed to generate summary")),
    }
}

/// The refusal used when the external service's key is not configured.
pub fn missing_api_key_response() -> (r: ApiResponse<String>)
    ensures
        reports_failure(r, "OpenAI API key not configured"@),
        r.wf(),
{
    ApiResponse::failed(String::from_str("OpenAI API key not configured"))
}

/// How the state came up at process start.
#[derive(Debug)]
pub enum LoadOutcome {
    /// The backing file was read and parsed.
    Loaded,
    /// There was no backing file; the state starts empty.
    NoFile,
    /// The backing file did not parse; the parse failure must be logged,
    /// and the state starts empty — data loss on corruption is accepted.
    CorruptFile,
}

/// Builds the state at process start from the backing file's content, or
/// from its absence. A missing or unparseable file gives the empty state,
/// never an error.
pub fn load_state(content: Option<&str>) -> (r: (PersistentState, LoadOutcome))
    ensures
        content is None ==> r.0@.feeds.len() == 0 && r.0@.read_later.len() == 0 && r.1 is NoFile,
        content is Some && parse_state(content->Some_0@) is Some ==> r.0@ == parse_state(
            content->Some_0@,
        )->Some_0 && r.1 is Loaded,
        content is Some && parse_state(content->Some_0@) is None ==> r.0@.feeds.len() == 0
            && r.0@.read_later.len() == 0 && r.1 is CorruptFile,
{
    match content {
        None => (PersistentState::empty(), LoadOutcome::NoFile),
        Some(text) => match decode_state(text) {
            Some(ps) => (ps, LoadOutcome::Loaded),
            None => (PersistentState::empty(), LoadOutcome::CorruptFile),
        },
    }
}

} // verus!
