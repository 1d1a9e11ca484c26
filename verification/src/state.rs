use vstd::prelude::*;

verus! {

/// One entry of a fetched feed, or one saved read-later record: a title,
/// a canonical link, a comments link, and a short description.
#[derive(Debug)]
pub struct FeedItem {
    pub title: String,
    pub link: String,
    pub comments: String,
    pub description: String,
}

/// The mathematical value of a `FeedItem`: its four fields as character
/// sequences.
#[verifier::ext_equal]
pub ghost struct ItemView {
    pub title: Seq<char>,
    pub link: Seq<char>,
    pub comments: Seq<char>,
    pub description: Seq<char>,
}

impl View for FeedItem {
    type V = ItemView;

    open spec fn view(&self) -> ItemView {
        ItemView {
            title: self.title@,
            link: self.link@,
            comments: self.comments@,
            description: self.description@,
        }
    }
}

impl FeedItem {
    /// Builds an item from its four fields.
    pub fn new(title: String, link: String, comments: String, description: String) -> (r: FeedItem)
        ensures
            r@ == (ItemView { title: title@, link: link@, comments: comments@, description: description@ }),
    {
        FeedItem { title, link, comments, description }
    }

    /// Returns a copy of the item whose fields read the same.
    pub fn duplicate(&self) -> (r: FeedItem)
        ensures
            r@ == self@,
    {
        FeedItem {
            title: self.title.clone(),
            link: self.link.clone(),
            comments: self.comments.clone(),
            description: self.description.clone(),
        }
    }
}

/// The canonical application state: the ordered list of subscribed feed
/// URLs and the ordered list of read-later items.
pub struct PersistentState {
    pub feeds: Vec<String>,
    pub read_later: Vec<FeedItem>,
}

/// The mathematical value of a `PersistentState`.
#[verifier::ext_equal]
pub ghost struct StateView {
    pub feeds: Seq<Seq<char>>,
    pub read_later: Seq<ItemView>,
}

impl View for PersistentState {
    type V = StateView;

    open spec fn view(&self) -> StateView {
        StateView {
            feeds: Seq::new(self.feeds@.len(), |i: int| self.feeds@[i]@),
            read_later: Seq::new(self.read_later@.len(), |i: int| self.read_later@[i]@),
        }
    }
}

/// A mutation refused by the store: the state is left exactly as it was.
#[derive(Debug)]
pub enum StoreError {
    /// The URL is already subscribed.
    DuplicateFeed,
    /// The feed index is at or past the end of the list.
    InvalidFeedIndex,
    /// A read-later item with the same link is already saved.
    DuplicateReadLater,
    /// The read-later index is at or past the end of the list.
    InvalidItemIndex,
    /// The add-read-later request carried neither a full item nor a
    /// (title, url) pair, or carried both.
    InvalidPayload,
}

/// Whether `url` occurs in `feeds`.
pub open spec fn has_url(feeds: Seq<Seq<char>>, url: Seq<char>) -> bool {
    exists|i: int| 0 <= i < feeds.len() && feeds[i] == url
}

/// Whether some item of `items` carries `link`.
pub open spec fn has_link(items: Seq<ItemView>, link: Seq<char>) -> bool {
    exists|i: int| 0 <= i < items.len() && items[i].link == link
}

/// An add-read-later request: either a full item promoted from a feed, or
/// a user-supplied title and URL. Exactly one of the two shapes is valid.
pub struct ReadLaterRequest {
    pub item: Option<FeedItem>,
    pub title: Option<String>,
    pub url: Option<String>,
}

/// The mathematical value of a `ReadLaterRequest`.
#[verifier::ext_equal]
pub ghost struct ReadLaterRequestView {
    pub item: Option<ItemView>,
    pub title: Option<Seq<char>>,
    pub url: Option<Seq<char>>,
}

impl View for ReadLaterRequest {
    type V = ReadLaterRequestView;

    open spec fn view(&self) -> ReadLaterRequestView {
        ReadLaterRequestView {
            item: match self.item {
                Some(it) => Some(it@),
                None => None,
            },
            title: match self.title {
                Some(t) => Some(t@),
                None => None,
            },
            url: match self.url {
                Some(u) => Some(u@),
                None => None,
            },
        }
    }
}

/// The item that an add-read-later request asks to save. The two valid
/// shapes are a full item with no title and no url, and a title and url
/// with no item; any other combination is invalid and yields `None`.
pub open spec fn candidate_item(p: ReadLaterRequestView) -> Option<ItemView> {
    match (p.item, p.title, p.url) {
        (Some(it), None, None) => Some(it),
        (None, Some(t), Some(u)) => Some(
            ItemView {
                title: t,
                link: u,
                comments: "No Comments Link"@,
                description: "Custom link added by user"@,
            },
        ),
        _ => None,
    }
}

/// The state after asking to add `url` as a feed: unchanged when the URL is
/// already subscribed, else the URL appended.
pub open spec fn spec_add_feed(s: StateView, url: Seq<char>) -> StateView {
    if has_url(s.feeds, url) {
        s
    } else {
        StateView { feeds: s.feeds.push(url), read_later: s.read_later }
    }
}

impl PersistentState {
    /// The empty state: no feeds, no read-later items.
    pub fn empty() -> (r: PersistentState)
        ensures
            r@.feeds.len() == 0,
            r@.read_later.len() == 0,
    {
        PersistentState { feeds: Vec::new(), read_later: Vec::new() }
    }

    /// Returns a copy of the subscribed URL list.
    pub fn feed_urls(&self) -> (r: Vec<String>)
        ensures
            r@.len() == self@.feeds.len(),
            forall|i: int| 0 <= i < r@.len() ==> r@[i]@ == self@.feeds[i],
    {
        let mut out: Vec<String> = Vec::new();
        let mut i: usize = 0;
        while i < self.feeds.len()
            invariant
                i <= self.feeds.len(),
                out@.len() == i,
                forall|j: int| 0 <= j < i ==> out@[j]@ == self@.feeds[j],
            decreases self.feeds.len() - i,
        {
            out.push(self.feeds[i].clone());
            i = i + 1;
        }
        out
    }

    /// Returns a copy of the read-later list.
    pub fn read_later_items(&self) -> (r: Vec<FeedItem>)
        ensures
            r@.len() == self@.read_later.len(),
            forall|i: int| 0 <= i < r@.len() ==> r@[i]@ == self@.read_later[i],
    {
        let mut out: Vec<FeedItem> = Vec::new();
        let mut i: usize = 0;
        while i < self.read_later.len()
            invariant
                i <= self.read_later.len(),
                out@.len() == i,
                forall|j: int| 0 <= j < i ==> out@[j]@ == self@.read_later[j],
            decreases self.read_later.len() - i,
        {
            out.push(self.read_later[i].duplicate());
            i = i + 1;
        }
        out
    }

    /// The URL at `index`, or `None` when the index is out of range.
    pub fn feed_url(&self, index: usize) -> (r: Option<String>)
        ensures
            index < self@.feeds.len() ==> (r matches Some(u) && u@ == self@.feeds[index as int]),
            index >= self@.feeds.len() ==> r is None,
    {
        if index < self.feeds.len() {
            Some(self.feeds[index].clone())
        } else {
            None
        }
    }

    fn find_url(&self, url: &String) -> (r: bool)
        ensures
            r == has_url(self@.feeds, url@),
    {
        let mut i: usize = 0;
        while i < self.feeds.len()
            invariant
                i <= self.feeds.len(),
                forall|j: int| 0 <= j < i ==> self@.feeds[j] != url@,
            decreases self.feeds.len() - i,
        {
            if self.feeds[i].eq(url) {
                proof {
                    assert(self@.feeds[i as int] == url@);
                }
                return true;
            }
            i = i + 1;
        }
        false
    }

    fn find_link(&self, link: &String) -> (r: bool)
        ensures
            r == has_link(self@.read_later, link@),
    {
        let mut i: usize = 0;
        while i < self.read_later.len()
            invariant
                i <= self.read_later.len(),
                forall|j: int| 0 <= j < i ==> self@.read_later[j].link != link@,
            decreases self.read_later.len() - i,
        {
            if self.read_later[i].link.eq(link) {
                proof {
                    assert(self@.read_later[i as int].link == link@);
                }
                return true;
            }
            i = i + 1;
        }
        false
    }

    /// Subscribes `url`. A URL already present is refused and the state is
    /// left unchanged; otherwise the URL is appended at the end.
    pub fn add_feed(&mut self, url: String) -> (r: Result<(), StoreError>)
        ensures
            final(self)@ == spec_add_feed(old(self)@, url@),
            r is Ok <==> !has_url(old(self)@.feeds, url@),
            r is Err ==> r matches Err(StoreError::DuplicateFeed),
    {
        if self.find_url(&url) {
            Err(StoreError::DuplicateFeed)
        } else {
            let ghost pre = self@;
            self.feeds.push(url);
            proof {
                assert(self@.feeds =~= pre.feeds.push(url@));
                assert(self@.read_later =~= pre.read_later);
            }
            Ok(())
        }
    }

    /// Unsubscribes the feed at `index`. An index at or past the end is
    /// refused and the state is left unchanged; otherwise the entry is
    /// removed and every later entry moves down by one position.
    pub fn remove_feed(&mut self, index: usize) -> (r: Result<String, StoreError>)
        ensures
            index >= old(self)@.feeds.len() ==> (r matches Err(StoreError::InvalidFeedIndex) && final(self)@ == old(self)@),
            index < old(self)@.feeds.len() ==> {
                &&& r matches Ok(u) && u@ == old(self)@.feeds[index as int]
                &&& final(self)@.feeds == old(self)@.feeds.remove(index as int)
                &&& final(self)@.read_later == old(self)@.read_later
                &&& final(self)@.feeds.len() == old(self)@.feeds.len() - 1
                &&& forall|j: int| 0 <= j < index ==> final(self)@.feeds[j] == old(self)@.feeds[j]
                &&& forall|j: int| index <= j < final(self)@.feeds.len() ==> final(self)@.feeds[j] == old(self)@.feeds[j + 1]
            },
    {
        if index < self.feeds.len() {
            let ghost pre = self@;
            let removed = self.feeds.remove(index);
            proof {
                assert(self@.feeds =~= pre.feeds.remove(index as int));
                assert(self@.read_later =~= pre.read_later);
            }
            Ok(removed)
        } else {
            Err(StoreError::InvalidFeedIndex)
        }
    }

    /// Saves a read-later item. The request must carry exactly one of the
    /// two valid shapes; an item whose link is already saved is refused; on
    /// success the item is appended at the end.
    pub fn add_read_later(&mut self, request: ReadLaterRequest) -> (r: Result<(), StoreError>)
        ensures
            candidate_item(request@) is None ==> (r matches Err(StoreError::InvalidPayload) && final(self)@ == old(self)@),
            candidate_item(request@) matches Some(it) && has_link(old(self)@.read_later, it.link) ==> (r matches Err(
                StoreError::DuplicateReadLater,
            ) && final(self)@ == old(self)@),
            r is Ok ==> (candidate_item(request@) matches Some(it) && final(self)@.read_later == old(
                self,
            )@.read_later.push(it) && final(self)@.feeds == old(self)@.feeds),
            r is Ok <==> (candidate_item(request@) matches Some(it) && !has_link(old(self)@.read_later, it.link)),
    {
        let new_item: FeedItem = match (request.item, request.title, request.url) {
            (Some(it), None, None) => it,
            (None, Some(title), Some(url)) => FeedItem {
                title,
                link: url,
                comments: String::from_str("No Comments Link"),
                description: String::from_str("Custom link added by user"),
            },
            _ => {
                return Err(StoreError::InvalidPayload);
            },
        };
        proof {
            assert(candidate_item(request@) matches Some(it) && it == new_item@);
        }
        if self.find_link(&new_item.link) {
            Err(StoreError::DuplicateReadLater)
        } else {
            let ghost pre = self@;
            self.read_later.push(new_item);
            proof {
                assert(self@.read_later =~= pre.read_later.push(candidate_item(request@)->Some_0));
                assert(self@.feeds =~= pre.feeds);
            }
            Ok(())
        }
    }

    /// Deletes the read-later item at `index`. An index at or past the end
    /// is refused and the state is left unchanged; otherwise the item is
    /// removed and every later item moves down by one position.
    pub fn remove_read_later(&mut self, index: usize) -> (r: Result<FeedItem, StoreError>)
        ensures
            index >= old(self)@.read_later.len() ==> (r matches Err(StoreError::InvalidItemIndex) && final(self)@ == old(
                self,
            )@),
            index < old(self)@.read_later.len() ==> {
                &&& r matches Ok(it) && it@ == old(self)@.read_later[index as int]
                &&& final(self)@.read_later == old(self)@.read_later.remove(index as int)
                &&& final(self)@.feeds == old(self)@.feeds
                &&& final(self)@.read_later.len() == old(self)@.read_later.len() - 1
                &&& forall|j: int| index <= j < final(self)@.read_later.len() ==> final(self)@.read_later[j] == old(
                    self,
                )@.read_later[j + 1]
            },
    {
        if index < self.read_later.len() {
            let ghost pre = self@;
            let removed = self.read_later.remove(index);
            proof {
                assert(self@.read_later =~= pre.read_later.remove(index as int));
                assert(self@.feeds =~= pre.feeds);
            }
            Ok(removed)
        } else {
            Err(StoreError::InvalidItemIndex)
        }
    }
}

/// Asking to add a URL that is already subscribed changes nothing: the
/// list, its length and the read-later queue all stay as they were.
pub proof fn lemma_add_duplicate_is_no_op(s: StateView, url: Seq<char>)
    requires
        has_url(s.feeds, url),
    ensures
        spec_add_feed(s, url) == s,
{
}

/// No two subscriptions carry the same URL.
pub open spec fn feeds_unique(feeds: Seq<Seq<char>>) -> bool {
    forall|i: int, j: int| 0 <= i < j < feeds.len() ==> feeds[i] != feeds[j]
}

/// No two read-later items carry the same link.
pub open spec fn links_unique(items: Seq<ItemView>) -> bool {
    forall|i: int, j: int| 0 <= i < j < items.len() ==> items[i].link != items[j].link
}

/// The state's invariant: both uniqueness rules hold.
pub open spec fn state_wf(s: StateView) -> bool {
    feeds_unique(s.feeds) && links_unique(s.read_later)
}

/// Adding a feed keeps the URLs unique: a URL already present is refused,
/// so the appended URL is always new.
pub proof fn lemma_add_feed_preserves_wf(s: StateView, url: Seq<char>)
    requires
        state_wf(s),
    ensures
        state_wf(spec_add_feed(s, url)),
{
    if !has_url(s.feeds, url) {
        let f = s.feeds.push(url);
        assert forall|i: int, j: int| 0 <= i < j < f.len() implies f[i] != f[j] by {
            if j < s.feeds.len() {
            } else {
                assert(f[j] == url);
                assert(f[i] == s.feeds[i]);
            }
        }
    }
}

/// Removing an element keeps the URLs unique.
pub proof fn lemma_remove_feed_preserves_wf(s: StateView, k: int)
    requires
        state_wf(s),
        0 <= k < s.feeds.len(),
    ensures
        state_wf(StateView { feeds: s.feeds.remove(k), read_later: s.read_later }),
{
    let r = s.feeds.remove(k);
    assert forall|i: int, j: int| 0 <= i < j < r.len() implies r[i] != r[j] by {
        let i0: int = if i < k {
            i
        } else {
            i + 1
        };
        let j0: int = if j < k {
            j
        } else {
            j + 1
        };
        assert(r[i] == s.feeds[i0]);
        assert(r[j] == s.feeds[j0]);
    }
}

/// Saving a read-later item keeps the links unique: an item whose link is
/// already saved is refused, so the appended link is always new.
pub proof fn lemma_add_read_later_preserves_wf(s: StateView, it: ItemView)
    requires
        state_wf(s),
        !has_link(s.read_later, it.link),
    ensures
        state_wf(StateView { feeds: s.feeds, read_later: s.read_later.push(it) }),
{
    let r = s.read_later.push(it);
    assert forall|i: int, j: int| 0 <= i < j < r.len() implies r[i].link != r[j].link by {
        if j < s.read_later.len() {
        } else {
            assert(r[j] == it);
            assert(r[i] == s.read_later[i]);
        }
    }
}

/// Deleting a read-later item keeps the links unique.
pub proof fn lemma_remove_read_later_preserves_wf(s: StateView, k: int)
    requires
        state_wf(s),
        0 <= k < s.read_later.len(),
    ensures
        state_wf(StateView { feeds: s.feeds, read_later: s.read_later.remove(k) }),
{
    let r = s.read_later.remove(k);
    assert forall|i: int, j: int| 0 <= i < j < r.len() implies r[i].link != r[j].link by {
        let i0: int = if i < k {
            i
        } else {
            i + 1
        };
        let j0: int = if j < k {
            j
        } else {
            j + 1
        };
        assert(r[i] == s.read_later[i0]);
        assert(r[j] == s.read_later[j0]);
    }
}

/// Two add-feed requests for distinct URLs, neither already subscribed,
/// serialized in lock-acquisition order: both succeed, both URLs stand in
/// the final list, and they stand in the order in which the lock was taken.
pub proof fn lemma_two_distinct_adds(s: StateView, u1: Seq<char>, u2: Seq<char>)
    requires
        u1 != u2,
        !has_url(s.feeds, u1),
        !has_url(s.feeds, u2),
    ensures
        !has_url(spec_add_feed(s, u1).feeds, u2),
        spec_add_feed(spec_add_feed(s, u1), u2).feeds == s.feeds.push(u1).push(u2),
        has_url(spec_add_feed(spec_add_feed(s, u1), u2).feeds, u1),
        has_url(spec_add_feed(spec_add_feed(s, u1), u2).feeds, u2),
{
    let f1 = spec_add_feed(s, u1).feeds;
    assert(f1 == s.feeds.push(u1));
    assert forall|i: int| 0 <= i < f1.len() implies f1[i] != u2 by {
        if i < s.feeds.len() {
            assert(!has_url(s.feeds, u2));
        } else {
            assert(f1[i] == u1);
        }
    }
    let f2 = spec_add_feed(spec_add_feed(s, u1), u2).feeds;
    assert(f2 == s.feeds.push(u1).push(u2));
    assert(f2[f1.len() as int] == u2);
    assert(f2[s.feeds.len() as int] == u1);
}

} // verus!
