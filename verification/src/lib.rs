//! A personal feed-aggregation core: a persistent store for subscribed
//! feed URLs and a read-later queue, mirrored to a single JSON file whose
//! round trip is proved; a feed fetcher that normalizes syndication
//! entries; a content extractor that turns raw pages into clean article
//! text through an ordered fallback chain; and the orchestration layer
//! that answers every transport operation with a uniform envelope.

use vstd::prelude::*;

pub mod codec;
pub mod extract;
pub mod feed;
pub mod service;
pub mod state;
pub mod summarize;

pub use feed::{FeedError, RawEntry};
pub use service::ApiResponse;
pub use state::{FeedItem, PersistentState, ReadLaterRequest, StoreError};

verus! {

} // verus!
