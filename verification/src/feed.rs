//! The feed: what the newest page of entries looks like to a reader of
//! feeds.

use vstd::prelude::*;
use crate::entry::{copy_text, PageData, PageDataView};
use crate::helpers::Timestamp;

verus! {

/// One entry as the feed shows it.
#[derive(Debug)]
pub struct FeedEntry {
    pub title: String,
    /// The description that the author gave, or else the shortened text.
    pub description: String,
    pub url: String,
    pub created_at: Timestamp,
    pub author: Option<String>,
    pub domain: String,
}

/// A `FeedEntry` as a mathematical value.
pub struct FeedEntryView {
    pub title: Seq<char>,
    pub description: Seq<char>,
    pub url: Seq<char>,
    pub created_at: Timestamp,
    pub author: Option<Seq<char>>,
    pub domain: Seq<char>,
}

impl DeepView for FeedEntry {
    type V = FeedEntryView;

    open spec fn deep_view(&self) -> FeedEntryView {
        FeedEntryView {
            title: self.title@,
            description: self.description@,
            url: self.url@,
            created_at: self.created_at,
            author: self.author.deep_view(),
            domain: self.domain@,
        }
    }
}

/// The feed of a site.
#[derive(Debug)]
pub struct FeedData {
    pub title: String,
    pub published_at: Timestamp,
    pub domain: String,
    pub site_url: String,
    pub site_description: String,
    pub entries: Vec<FeedEntry>,
}

/// A `FeedData` as a mathematical value.
pub struct FeedDataView {
    pub title: Seq<char>,
    pub published_at: Timestamp,
    pub domain: Seq<char>,
    pub site_url: Seq<char>,
    pub site_description: Seq<char>,
    pub entries: Seq<FeedEntryView>,
}

impl DeepView for FeedData {
    type V = FeedDataView;

    open spec fn deep_view(&self) -> FeedDataView {
        FeedDataView {
            title: self.title@,
            published_at: self.published_at,
            domain: self.domain@,
            site_url: self.site_url@,
            site_description: self.site_description@,
            entries: self.entries.deep_view(),
        }
    }
}

/// An entry as the feed shows it: described by what its author wrote, and
/// by its shortened text where the author wrote nothing.
pub open spec fn feed_entry_of(e: PageDataView) -> FeedEntryView {
    FeedEntryView {
        title: e.title,
        description: match e.description {
            Some(d) => d,
            None => e.truncated_contents,
        },
        url: e.url,
        created_at: e.created_at,
        author: e.author,
        domain: e.domain,
    }
}

/// The entries of a page as the feed shows them, in the page's order.
pub open spec fn feed_entries_of(page: Seq<PageDataView>) -> Seq<FeedEntryView> {
    Seq::new(page.len(), |i: int| feed_entry_of(page[i]))
}

/// Makes the feed's view of one entry.
pub fn feed_entry(e: &PageData) -> (r: FeedEntry)
    ensures
        r.deep_view() == feed_entry_of(e.deep_view()),
{
    FeedEntry {
        title: e.title.clone(),
        description: match &e.description {
            Some(d) => d.clone(),
            None => e.truncated_contents.clone(),
        },
        url: e.url.clone(),
        created_at: e.created_at,
        author: copy_text(&e.author),
        domain: e.domain.clone(),
    }
}

/// Makes the feed's view of the entries of a page.
pub fn feed_entries(page: &Vec<PageData>) -> (r: Vec<FeedEntry>)
    ensures
        r.deep_view() == feed_entries_of(page.deep_view()),
{
    let mut r: Vec<FeedEntry> = Vec::new();
    let mut i: usize = 0;
    while i < page.len()
        invariant
            i <= page.len(),
            r.deep_view() == feed_entries_of(page.deep_view().take(i as int)),
        decreases page.len() - i,
    {
        let ghost before = r.deep_view();
        let e = feed_entry(&page[i]);
        r.push(e);
        assert(r.deep_view() == before.push(e.deep_view()));
        assert(feed_entries_of(page.deep_view().take(i + 1)) == before.push(
            feed_entry_of(page.deep_view()[i as int]),
        ));
        i += 1;
    }
    assert(page.deep_view().take(page.len() as int) == page.deep_view());
    r
}

} // verus!
