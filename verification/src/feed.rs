use vstd::prelude::*;
use crate::codec::item_views;
use crate::state::{FeedItem, ItemView};

verus! {

// ---------------------------------------------------------------------------
// The feed fetcher's document handling: the rss crate parses the fetched
// document behind one trusted wrapper, and everything after that — the
// per-entry sentinel defaults, the success/error classification and the
// entry selection for content fetching — is verified.
// ---------------------------------------------------------------------------
/// One entry as the syndication document carries it: each field present
/// or absent.
pub struct RawEntry {
    pub title: Option<String>,
    pub link: Option<String>,
    pub comments: Option<String>,
    pub description: Option<String>,
}

/// The mathematical value of a `RawEntry`.
#[verifier::ext_equal]
pub ghost struct RawView {
    pub title: Option<Seq<char>>,
    pub link: Option<Seq<char>>,
    pub comments: Option<Seq<char>>,
    pub description: Option<Seq<char>>,
}

impl View for RawEntry {
    type V = RawView;

    open spec fn view(&self) -> RawView {
        RawView {
            title: match self.title {
                Some(s) => Some(s@),
                None => None,
            },
            link: match self.link {
                Some(s) => Some(s@),
                None => None,
            },
            comments: match self.comments {
                Some(s) => Some(s@),
                None => None,
            },
            description: match self.description {
                Some(s) => Some(s@),
                None => None,
            },
        }
    }
}

impl DeepView for RawEntry {
    type V = RawView;

    open spec fn deep_view(&self) -> RawView {
        self.view()
    }
}

/// Why a feed could not be delivered: the URL was unreachable, or it
/// answered with a document that is not a syndication feed. The two are
/// kept apart so a caller can render different messages.
#[derive(Debug)]
pub enum FeedError {
    NetworkUnreachable,
    MalformedFeed,
}

/// The entries of the syndication document `body`, each reduced to its
/// four optional text fields, or `None` when the document does not parse
/// as a feed. A pure function of the document text.
pub uninterp spec fn rss_entries(body: Seq<char>) -> Option<Seq<RawView>>;

/// Relies on rss 2.1: Channel::read_from (an error exactly when the text
/// is not a parsable feed document) and the Item accessors
/// title/link/comments/description, which hand out the optional fields of
/// each item in document order. The result depends on the text alone.
#[verifier::external_body]
fn read_channel_entries(body: &str) -> (r: Option<Vec<RawEntry>>)
    ensures
        r is Some <==> rss_entries(body@) is Some,
        r matches Some(v) ==> v.deep_view() == rss_entries(body@)->Some_0,
{
    let channel = match rss::Channel::read_from(body.as_bytes()) {
        Ok(c) => c,
        Err(_) => return None,
    };
    Some(
        channel.items().iter().map(
            |it| RawEntry {
                title: it.title().map(|s| s.to_string()),
                link: it.link().map(|s| s.to_string()),
                comments: it.comments().map(|s| s.to_string()),
                description: it.description().map(|s| s.to_string()),
            },
        ).collect(),
    )
}

/// A field's text, or the fixed sentinel when the document omitted it.
pub open spec fn sentinel(o: Option<Seq<char>>, d: Seq<char>) -> Seq<char> {
    match o {
        Some(s) => s,
        None => d,
    }
}

/// One entry normalized: every missing field replaced by its sentinel, so
/// no entry is dropped for being incomplete.
pub open spec fn norm_view(e: RawView) -> ItemView {
    ItemView {
        title: sentinel(e.title, "No Title"@),
        link: sentinel(e.link, "No Link"@),
        comments: sentinel(e.comments, "No Comments Link"@),
        description: sentinel(e.description, "No Description"@),
    }
}

fn field_or(o: &Option<String>, d: &str) -> (r: String)
    ensures
        r@ == sentinel(
            match *o {
                Some(s) => Some(s@),
                None => None,
            },
            d@,
        ),
{
    match o {
        Some(s) => s.clone(),
        None => String::from_str(d),
    }
}

/// Normalizes one entry, replacing each missing field by its sentinel.
pub fn normalize_entry(e: &RawEntry) -> (r: FeedItem)
    ensures
        r@ == norm_view(e@),
{
    FeedItem {
        title: field_or(&e.title, "No Title"),
        link: field_or(&e.link, "No Link"),
        comments: field_or(&e.comments, "No Comments Link"),
        description: field_or(&e.description, "No Description"),
    }
}

/// Parses a fetched document as a feed and normalizes every entry. The
/// output has exactly one item per entry of the document; a document that
/// is not a feed is refused as `MalformedFeed`.
pub fn parse_feed(body: &str) -> (r: Result<Vec<FeedItem>, FeedError>)
    ensures
        r is Ok <==> rss_entries(body@) is Some,
        r matches Ok(v) ==> item_views(v@) == rss_entries(body@)->Some_0.map_values(|e: RawView| norm_view(e)),
        r matches Err(e) ==> e == FeedError::MalformedFeed,
{
    match read_channel_entries(body) {
        None => Err(FeedError::MalformedFeed),
        Some(raws) => {
            let ghost rs = rss_entries(body@)->Some_0;
            let mut out: Vec<FeedItem> = Vec::new();
            let mut i: usize = 0;
            while i < raws.len()
                invariant
                    i <= raws.len(),
                    raws.deep_view() == rs,
                    raws@.len() == rs.len(),
                    out@.len() == i,
                    forall|j: int| 0 <= j < i ==> out@[j]@ == norm_view(rs[j]),
                decreases raws.len() - i,
            {
                proof {
                    assert(raws.deep_view()[i as int] == raws@[i as int]@);
                }
                let it = normalize_entry(&raws[i]);
                out.push(it);
                i = i + 1;
            }
            proof {
                assert(item_views(out@) =~= rs.map_values(|e: RawView| norm_view(e)));
            }
            Ok(out)
        },
    }
}

/// Classifies one fetch attempt: no response at all is a network failure,
/// a response that is not a feed is a parse failure, and anything else is
/// the normalized entry list. The two failures can never trade places.
pub fn fetch_feed_outcome(body: Option<String>) -> (r: Result<Vec<FeedItem>, FeedError>)
    ensures
        body is None <==> (r matches Err(e) && e == FeedError::NetworkUnreachable),
        (body matches Some(b) && rss_entries(b@) is None) <==> (r matches Err(e) && e == FeedError::MalformedFeed),
        body is Some && rss_entries(body->Some_0@) is Some ==> (r matches Ok(v) && item_views(v@) == rss_entries(
            body->Some_0@,
        )->Some_0.map_values(|e: RawView| norm_view(e))),
{
    match body {
        None => Err(FeedError::NetworkUnreachable),
        Some(b) => parse_feed(b.as_str()),
    }
}

/// Why an entry's page cannot be fetched from the feed just parsed.
#[derive(Debug)]
pub enum EntryError {
    /// The entry index is at or past the end of the entry list.
    BadIndex,
    /// The entry has no link field in the document.
    NoLink,
}

/// The link of the entry at `index`, for the page fetch that follows: an
/// out-of-range index and a linkless entry are told apart.
pub fn entry_link(entries: &Vec<RawEntry>, index: usize) -> (r: Result<String, EntryError>)
    ensures
        index >= entries@.len() ==> (r matches Err(e) && e == EntryError::BadIndex),
        index < entries@.len() && entries@[index as int]@.link is None ==> (r matches Err(e) && e
            == EntryError::NoLink),
        index < entries@.len() && entries@[index as int]@.link is Some ==> (r matches Ok(u) && u@ == entries@[
            index as int
        ]@.link->Some_0),
{
    if index >= entries.len() {
        return Err(EntryError::BadIndex);
    }
    match &entries[index].link {
        Some(u) => Ok(u.clone()),
        None => Err(EntryError::NoLink),
    }
}

/// Parses a fetched document and keeps the entries raw, for the content
/// fetch path, which reads the link field as the document carried it.
pub fn parse_feed_raw(body: &str) -> (r: Result<Vec<RawEntry>, FeedError>)
    ensures
        r is Ok <==> rss_entries(body@) is Some,
        r matches Ok(v) ==> v.deep_view() == rss_entries(body@)->Some_0,
        r matches Err(e) ==> e == FeedError::MalformedFeed,
{
    match read_channel_entries(body) {
        None => Err(FeedError::MalformedFeed),
        Some(raws) => Ok(raws),
    }
}

} // verus!
