//! The members of the ring and what each of them publishes.

use vstd::prelude::*;

verus! {

/// A calendar date, kept as the numbers a reader would write down.
#[derive(Debug, Clone, Copy, PartialEq, Eq, Structural)]
pub struct Date {
    pub year: i32,
    pub month: u32,
    pub day: u32,
}

impl Date {
    /// The month and the day lie in the range a calendar can show. Whether the
    /// month has that many days is for whoever produced the date to know.
    pub open spec fn wf(self) -> bool {
        &&& 1 <= self.month <= 12
        &&& 1 <= self.day <= 31
    }
}

/// One feed that a member publishes.
#[derive(Debug, Clone, PartialEq, Eq)]
pub struct Feed {
    /// Where the feed itself is served.
    pub xml_url: String,
    /// What to call the feed; the member's name stands in when absent.
    pub title: Option<String>,
    /// The page the feed belongs to; the member's site stands in when absent.
    pub html_url: Option<String>,
}

/// The mathematical content of a [`Feed`].
pub ghost struct FeedView {
    pub xml_url: Seq<char>,
    pub title: Option<Seq<char>>,
    pub html_url: Option<Seq<char>>,
}

/// The text held by an optional string, if any.
pub open spec fn text_of(s: Option<String>) -> Option<Seq<char>> {
    match s {
        Some(t) => Some(t@),
        None => None,
    }
}

impl View for Feed {
    type V = FeedView;

    open spec fn view(&self) -> FeedView {
        FeedView {
            xml_url: self.xml_url@,
            title: text_of(self.title),
            html_url: text_of(self.html_url),
        }
    }
}

/// What a list of feeds holds.
pub open spec fn feed_views(feeds: Seq<Feed>) -> Seq<FeedView> {
    feeds.map_values(|f: Feed| f@)
}

/// One participant in the ring.
#[derive(Debug, Clone, PartialEq, Eq)]
pub struct Member {
    /// Short identifier, used in paths and as the key for navigation.
    pub slug: String,
    /// The address of the member's site.
    pub url: String,
    /// Display name.
    pub name: String,
    /// When the member was admitted. Navigation does not look at it.
    pub joined: Date,
    /// Set while the site is broken or unreachable: the member stays listed
    /// but takes no part in navigation.
    pub invalid: bool,
    /// The member's feeds, in the order they were declared.
    pub rss_feeds: Vec<Feed>,
}

/// The mathematical content of a [`Member`].
pub ghost struct MemberView {
    pub slug: Seq<char>,
    pub url: Seq<char>,
    pub name: Seq<char>,
    pub joined: Date,
    pub invalid: bool,
    pub feeds: Seq<FeedView>,
}

impl View for Member {
    type V = MemberView;

    open spec fn view(&self) -> MemberView {
        MemberView {
            slug: self.slug@,
            url: self.url@,
            name: self.name@,
            joined: self.joined,
            invalid: self.invalid,
            feeds: feed_views(self.rss_feeds@),
        }
    }
}

} // verus!
