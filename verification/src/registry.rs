//! Loading the registry: the member list as it was written down is read
//! entry by entry, and only a list without fault becomes a ring.

use crate::error::{Error, Fault};
use crate::member::{feed_views, Date, Feed, FeedView, Member, MemberView};
use crate::ring::{as_registry, member_views, registry_outcome, FireChicken};
use chrono::Datelike;
use std::str::FromStr;
use vstd::prelude::*;

verus! {

/// Why `url::Url::parse` refused a text. Nothing is read from it.
#[verifier::external_type_specification]
#[verifier::external_body]
pub struct ExUrlParseError(url::ParseError);

/// Why chrono refused a text as a date. Nothing is read from it.
#[verifier::external_type_specification]
#[verifier::external_body]
pub struct ExDateParseError(chrono::ParseError);

/// The serialization of the absolute URL that the `url` crate reads from a
/// text; `None` where it reads none.
pub uninterp spec fn url_serialization(text: Seq<char>) -> Option<Seq<char>>;

/// The calendar date that chrono reads from a text written as year, month
/// and day; `None` where it reads none.
pub uninterp spec fn calendar_date(text: Seq<char>) -> Option<Date>;

/// Calls `url::Url::parse` and hands out the serialization of the URL, as
/// `String::from` gives it.
///
/// Trusted: whether the text is accepted, and the serialization if it is,
/// depend on the text alone; they are given the name `url_serialization`.
#[verifier::external_body]
fn parse_url(text: &str) -> (r: Result<String, url::ParseError>)
    ensures
        match r {
            Ok(address) => url_serialization(text@) == Some(address@),
            Err(_) => url_serialization(text@) is None,
        },
{
    match url::Url::parse(text) {
        Ok(address) => Ok(String::from(address)),
        Err(e) => Err(e),
    }
}

/// Calls `chrono::NaiveDate::from_str` and hands out year, month and day of
/// the date, as `Datelike` gives them.
///
/// Trusted: whether the text is accepted, and the date if it is, depend on
/// the text alone; they are given the name `calendar_date`. Of a date that
/// chrono hands out, the month lies between 1 and 12 and the day between 1
/// and 31.
#[verifier::external_body]
fn parse_date(text: &str) -> (r: Result<Date, chrono::ParseError>)
    ensures
        match r {
            Ok(date) => calendar_date(text@) == Some(date) && date.wf(),
            Err(_) => calendar_date(text@) is None,
        },
{
    match chrono::NaiveDate::from_str(text) {
        Ok(date) => Ok(Date { year: date.year(), month: date.month(), day: date.day() }),
        Err(e) => Err(e),
    }
}

/// One entry of the member list as it was written down: addresses and the
/// date are still text, and nothing has been read from them.
#[derive(Debug, Clone, PartialEq, Eq)]
pub struct MemberEntry {
    pub slug: String,
    pub url: String,
    pub name: String,
    pub joined: String,
    pub invalid: bool,
    pub rss_feeds: Vec<Feed>,
}

/// The mathematical content of a [`MemberEntry`].
pub ghost struct EntryView {
    pub slug: Seq<char>,
    pub url: Seq<char>,
    pub name: Seq<char>,
    pub joined: Seq<char>,
    pub invalid: bool,
    pub feeds: Seq<FeedView>,
}

impl View for MemberEntry {
    type V = EntryView;

    open spec fn view(&self) -> EntryView {
        EntryView {
            slug: self.slug@,
            url: self.url@,
            name: self.name@,
            joined: self.joined@,
            invalid: self.invalid,
            feeds: feed_views(self.rss_feeds@),
        }
    }
}

/// What a list of entries holds.
pub open spec fn entry_views(entries: Seq<MemberEntry>) -> Seq<EntryView> {
    entries.map_values(|e: MemberEntry| e@)
}

/// What is wrong with a feed as declared: its address, or else its landing
/// page if it names one.
pub open spec fn feed_fault(feed: FeedView) -> Option<Fault> {
    if url_serialization(feed.xml_url) is None {
        Some(Fault::FeedAddress)
    } else if feed.html_url is Some && url_serialization(feed.html_url.unwrap()) is None {
        Some(Fault::FeedLink)
    } else {
        None
    }
}

/// `j` is the first feed with a fault.
pub open spec fn first_feed_fault_at(feeds: Seq<FeedView>, j: int) -> bool {
    &&& 0 <= j < feeds.len()
    &&& feed_fault(feeds[j]) is Some
    &&& forall|h: int| 0 <= h < j ==> feed_fault(#[trigger] feeds[h]) is None
}

/// What is wrong with the feeds of an entry: the fault of the first feed
/// that has one.
pub open spec fn feeds_fault(feeds: Seq<FeedView>) -> Option<Fault> {
    if exists|j: int| 0 <= j < feeds.len() && feed_fault(#[trigger] feeds[j]) is Some {
        feed_fault(feeds[choose|j: int| first_feed_fault_at(feeds, j)])
    } else {
        None
    }
}

/// What is wrong with an entry read by itself, the first of: its address,
/// its date, its feeds.
pub open spec fn reading_fault(entry: EntryView) -> Option<Fault> {
    if url_serialization(entry.url) is None {
        Some(Fault::Url)
    } else if calendar_date(entry.joined) is None {
        Some(Fault::Joined)
    } else {
        feeds_fault(entry.feeds)
    }
}

/// `i` is the first entry that cannot be read.
pub open spec fn first_unreadable_at(entries: Seq<EntryView>, i: int) -> bool {
    &&& 0 <= i < entries.len()
    &&& reading_fault(entries[i]) is Some
    &&& forall|h: int| 0 <= h < i ==> reading_fault(#[trigger] entries[h]) is None
}

/// Some entry cannot be read.
pub open spec fn unreadable(entries: Seq<EntryView>) -> bool {
    exists|i: int| 0 <= i < entries.len() && reading_fault(#[trigger] entries[i]) is Some
}

/// A feed as it enters the registry: its addresses in their serialized form.
pub open spec fn admitted_feed(feed: FeedView) -> FeedView {
    FeedView {
        xml_url: url_serialization(feed.xml_url).unwrap(),
        title: feed.title,
        html_url: match feed.html_url {
            Some(page) => Some(url_serialization(page).unwrap()),
            None => None,
        },
    }
}

/// An entry as it enters the registry: address and date read, the rest as
/// it was written.
pub open spec fn admitted(entry: EntryView) -> MemberView {
    MemberView {
        slug: entry.slug,
        url: url_serialization(entry.url).unwrap(),
        name: entry.name,
        joined: calendar_date(entry.joined).unwrap(),
        invalid: entry.invalid,
        feeds: entry.feeds.map_values(|f: FeedView| admitted_feed(f)),
    }
}

/// The entries as they enter the registry, in the order of the list.
pub open spec fn admitted_all(entries: Seq<EntryView>) -> Seq<MemberView> {
    entries.map_values(|e: EntryView| admitted(e))
}

/// The registry that a member list gives. Where an entry cannot be read,
/// the first such entry is at fault; where all can, the registry is that of
/// the entries admitted, given that their slugs are distinct.
pub open spec fn loaded(entries: Seq<EntryView>) -> Result<Seq<MemberView>, Error> {
    if unreadable(entries) {
        let i = choose|i: int| first_unreadable_at(entries, i);
        Err(Error::MalformedInput { entry: i as usize, fault: reading_fault(entries[i]).unwrap() })
    } else {
        as_registry(admitted_all(entries))
    }
}

fn admit_feed(feed: &Feed) -> (r: Result<Feed, Fault>)
    ensures
        match r {
            Ok(f) => feed_fault(feed@) is None && f@ == admitted_feed(feed@),
            Err(fault) => feed_fault(feed@) == Some(fault),
        },
{
    let xml_url = match parse_url(feed.xml_url.as_str()) {
        Ok(address) => address,
        Err(_) => {
            return Err(Fault::FeedAddress);
        },
    };
    let html_url = match &feed.html_url {
        Some(page) => match parse_url(page.as_str()) {
            Ok(address) => Some(address),
            Err(_) => {
                return Err(Fault::FeedLink);
            },
        },
        None => None,
    };
    let title = match &feed.title {
        Some(t) => Some(t.clone()),
        None => None,
    };
    Ok(Feed { xml_url, title, html_url })
}

fn admit_feeds(feeds: &Vec<Feed>) -> (r: Result<Vec<Feed>, Fault>)
    ensures
        match r {
            Ok(fs) => feeds_fault(feed_views(feeds@)) is None && feed_views(fs@) == feed_views(
                feeds@,
            ).map_values(|f: FeedView| admitted_feed(f)),
            Err(fault) => feeds_fault(feed_views(feeds@)) == Some(fault),
        },
{
    let ghost declared = feed_views(feeds@);
    let mut fs: Vec<Feed> = Vec::new();
    let mut j: usize = 0;
    while j < feeds.len()
        invariant
            j <= feeds.len(),
            declared == feed_views(feeds@),
            fs.len() == j,
            forall|h: int| 0 <= h < j ==> feed_fault(#[trigger] declared[h]) is None,
            forall|h: int| 0 <= h < j ==> (#[trigger] fs@[h])@ == admitted_feed(declared[h]),
        decreases feeds.len() - j,
    {
        match admit_feed(&feeds[j]) {
            Ok(f) => {
                fs.push(f);
            },
            Err(fault) => {
                proof {
                    assert(first_feed_fault_at(declared, j as int));
                }
                return Err(fault);
            },
        }
        j += 1;
    }
    Ok(fs)
}

impl MemberEntry {
    /// Reads the entry: the address and the addresses of the feeds become
    /// URLs in their serialized form, the date a calendar date. The first
    /// of them that cannot be read is the fault.
    pub fn read(&self) -> (r: Result<Member, Fault>)
        ensures
            match r {
                Ok(member) => reading_fault(self@) is None && member@ == admitted(self@)
                    && member.joined.wf(),
                Err(fault) => reading_fault(self@) == Some(fault),
            },
    {
        let url = match parse_url(self.url.as_str()) {
            Ok(address) => address,
            Err(_) => {
                return Err(Fault::Url);
            },
        };
        let joined = match parse_date(self.joined.as_str()) {
            Ok(date) => date,
            Err(_) => {
                return Err(Fault::Joined);
            },
        };
        let rss_feeds = match admit_feeds(&self.rss_feeds) {
            Ok(feeds) => feeds,
            Err(fault) => {
                return Err(fault);
            },
        };
        Ok(
            Member {
                slug: self.slug.clone(),
                url,
                name: self.name.clone(),
                joined,
                invalid: self.invalid,
                rss_feeds,
            },
        )
    }
}

impl FireChicken {
    /// Builds the registry from the member list as it was written down.
    /// Every entry is read first, in order, and the first that cannot be
    /// read ends the loading: an address that is no absolute URL, a date
    /// that is no calendar date, a feed whose address or landing page is no
    /// absolute URL. Then the slugs are held against each other, and the
    /// first entry that repeats one is at fault. A list without fault gives
    /// the registry of its entries, in the order of the list.
    pub fn load(entries: &Vec<MemberEntry>) -> (r: Result<FireChicken, Error>)
        ensures
            registry_outcome(r) == loaded(entry_views(entries@)),
            r matches Ok(fire_chicken) ==> fire_chicken.wf() && forall|i: int|
                0 <= i < fire_chicken.members.len() ==> (
                #[trigger] fire_chicken.members[i]).joined.wf(),
    {
        let ghost written = entry_views(entries@);
        let mut members: Vec<Member> = Vec::new();
        let mut i: usize = 0;
        while i < entries.len()
            invariant
                i <= entries.len(),
                written == entry_views(entries@),
                members.len() == i,
                forall|h: int| 0 <= h < i ==> reading_fault(#[trigger] written[h]) is None,
                forall|h: int|
                    0 <= h < i ==> (#[trigger] member_views(members@)[h]) == admitted(written[h]),
                forall|h: int| 0 <= h < i ==> (#[trigger] members[h]).joined.wf(),
            decreases entries.len() - i,
        {
            match entries[i].read() {
                Ok(member) => {
                    assert(member_views(members@.push(member)) =~= member_views(members@).push(
                        member@,
                    ));
                    members.push(member);
                },
                Err(fault) => {
                    proof {
                        assert(first_unreadable_at(written, i as int));
                    }
                    return Err(Error::MalformedInput { entry: i, fault });
                },
            }
            i += 1;
        }
        assert(member_views(members@) =~= admitted_all(written));
        FireChicken::new(members)
    }
}

} // verus!
