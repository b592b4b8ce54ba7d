//! The aggregated feed list: one outline for every feed of every valid
//! member, written out as an OPML document.

use crate::member::{text_of, Feed, FeedView, Member, MemberView};
use crate::rfc_822::{formatted_utc, serialize, FORMAT};
use crate::ring::{
    is_valid, lemma_valid_ring_add, lemma_valid_ring_members, lemma_valid_ring_push, valid_ring,
    views, FireChicken,
};
use vstd::prelude::*;

verus! {

/// The line that opens the document.
pub const XML_DECLARATION: &'static str = "<?xml version=\"1.0\" encoding=\"UTF-8\"?>";

/// The version of OPML that the document follows.
pub const VERSION: &'static str = "1.0";

/// The title in the head of the document.
pub const TITLE: &'static str = "RSS Feeds for all Fire Chicken Webring members";

/// The kind of feed that every outline announces.
pub const FEED_TYPE: &'static str = "rss";

/// One row of the feed list.
#[derive(Debug, Clone, PartialEq, Eq)]
pub struct Outline {
    /// The label shown for the feed.
    pub text: String,
    /// The title of the feed.
    pub title: String,
    /// The kind of feed.
    pub typ: String,
    /// Where the feed is served.
    pub xml_url: String,
    /// The page the feed belongs to.
    pub html_url: String,
}

/// The mathematical content of an [`Outline`].
pub ghost struct OutlineView {
    pub text: Seq<char>,
    pub title: Seq<char>,
    pub typ: Seq<char>,
    pub xml_url: Seq<char>,
    pub html_url: Seq<char>,
}

impl View for Outline {
    type V = OutlineView;

    open spec fn view(&self) -> OutlineView {
        OutlineView {
            text: self.text@,
            title: self.title@,
            typ: self.typ@,
            xml_url: self.xml_url@,
            html_url: self.html_url@,
        }
    }
}

/// The feed list as a document: a head with title and time of creation, and
/// a body of outlines.
#[derive(Debug, Clone, PartialEq, Eq)]
pub struct Opml {
    pub version: String,
    pub title: String,
    pub date_created: String,
    pub outlines: Vec<Outline>,
}

/// The mathematical content of an [`Opml`] document.
pub ghost struct OpmlView {
    pub version: Seq<char>,
    pub title: Seq<char>,
    pub date_created: Seq<char>,
    pub outlines: Seq<OutlineView>,
}

/// What a list of outlines holds.
pub open spec fn outline_views(outlines: Seq<Outline>) -> Seq<OutlineView> {
    outlines.map_values(|o: Outline| o@)
}

impl View for Opml {
    type V = OpmlView;

    open spec fn view(&self) -> OpmlView {
        OpmlView {
            version: self.version@,
            title: self.title@,
            date_created: self.date_created@,
            outlines: outline_views(self.outlines@),
        }
    }
}

/// The outline of one feed of a member: label and title are the feed's own
/// title, or else the member's name; the page is the feed's own, or else the
/// member's site.
pub open spec fn outline_of(member: MemberView, feed: FeedView) -> OutlineView {
    let title = match feed.title {
        Some(t) => t,
        None => member.name,
    };
    OutlineView {
        text: title,
        title: title,
        typ: FEED_TYPE@,
        xml_url: feed.xml_url,
        html_url: match feed.html_url {
            Some(page) => page,
            None => member.url,
        },
    }
}

/// The outlines of one member, feed by feed.
pub open spec fn outlines_of(member: MemberView) -> Seq<OutlineView> {
    member.feeds.map_values(|f: FeedView| outline_of(member, f))
}

/// What each member of a ring contributes.
pub open spec fn contributions(ring: Seq<MemberView>) -> Seq<Seq<OutlineView>> {
    ring.map_values(|m: MemberView| outlines_of(m))
}

/// The body of the feed list: the outlines of the valid members, member by
/// member in registry order and feed by feed within a member.
pub open spec fn outline_list(members: Seq<MemberView>) -> Seq<OutlineView> {
    contributions(valid_ring(members)).flatten()
}

/// The document for a registry, its time of creation already written out.
pub open spec fn document_of(members: Seq<MemberView>, date_created: Seq<char>) -> OpmlView {
    OpmlView {
        version: VERSION@,
        title: TITLE@,
        date_created: date_created,
        outlines: outline_list(members),
    }
}

/// What stands for a character inside XML text and attribute values.
pub open spec fn escaped_char(c: char) -> Seq<char> {
    if c == '<' {
        "&lt;"@
    } else if c == '>' {
        "&gt;"@
    } else if c == '&' {
        "&amp;"@
    } else if c == '\'' {
        "&apos;"@
    } else if c == '"' {
        "&quot;"@
    } else {
        seq![c]
    }
}

/// A text with each of its characters escaped.
pub open spec fn escaped(raw: Seq<char>) -> Seq<char> {
    raw.map_values(|c: char| escaped_char(c)).flatten()
}

/// An attribute as it stands inside a tag: a space, the name, and the value
/// escaped between double quotes.
pub open spec fn attribute_xml(name: Seq<char>, value: Seq<char>) -> Seq<char> {
    " "@ + name + "=\""@ + escaped(value) + "\""@
}

/// An outline as an element without content.
pub open spec fn outline_xml(outline: OutlineView) -> Seq<char> {
    "<outline"@ + attribute_xml("text"@, outline.text) + attribute_xml("title"@, outline.title)
        + attribute_xml("type"@, outline.typ) + attribute_xml("xmlUrl"@, outline.xml_url)
        + attribute_xml("htmlUrl"@, outline.html_url) + "/>"@
}

/// The outlines one after the other.
pub open spec fn outlines_xml(outlines: Seq<OutlineView>) -> Seq<char>
    decreases outlines.len(),
{
    if outlines.len() == 0 {
        Seq::empty()
    } else {
        outlines_xml(outlines.drop_last()) + outline_xml(outlines.last())
    }
}

/// The body element; it has no content, and is written so, where there is
/// no outline.
pub open spec fn body_xml(outlines: Seq<OutlineView>) -> Seq<char> {
    if outlines.len() == 0 {
        "<body/>"@
    } else {
        "<body>"@ + outlines_xml(outlines) + "</body>"@
    }
}

/// The head element.
pub open spec fn head_xml(title: Seq<char>, date_created: Seq<char>) -> Seq<char> {
    "<head><title>"@ + escaped(title) + "</title><date_created>"@ + escaped(date_created)
        + "</date_created></head>"@
}

/// The whole document as text.
pub open spec fn opml_xml(document: OpmlView) -> Seq<char> {
    XML_DECLARATION@ + "<opml"@ + attribute_xml("version"@, document.version) + ">"@ + head_xml(
        document.title,
        document.date_created,
    ) + body_xml(document.outlines) + "</opml>"@
}

/// The feed list of a registry as text, created at the instant
/// `generated_at`; there is none where that instant cannot be written.
pub open spec fn rendered(members: Seq<MemberView>, generated_at: int) -> Option<Seq<char>> {
    match formatted_utc(generated_at, FORMAT@) {
        Some(date) => Some(opml_xml(document_of(members, date))),
        None => None,
    }
}

/// Adding an outline to the list adds its element to the text.
pub proof fn lemma_outlines_xml_push(outlines: Seq<OutlineView>, outline: OutlineView)
    ensures
        outlines_xml(outlines.push(outline)) == outlines_xml(outlines) + outline_xml(outline),
{
    assert(outlines.push(outline).drop_last() =~= outlines);
}

/// A text is inert when it holds none of the characters that open or close
/// a tag or a quoted value.
pub open spec fn is_inert(text: Seq<char>) -> bool {
    forall|i: int|
        0 <= i < text.len() ==> {
            let c = #[trigger] text[i];
            c != '<' && c != '>' && c != '"' && c != '\''
        }
}

/// Escaped text is inert: whatever a name or an address holds, it cannot
/// end the attribute or the element it is written into.
pub proof fn lemma_escaped_is_inert(raw: Seq<char>)
    ensures
        is_inert(escaped(raw)),
    decreases raw.len(),
{
    let parts = raw.map_values(|c: char| escaped_char(c));
    if raw.len() == 0 {
        assert(parts =~= Seq::<Seq<char>>::empty());
    } else {
        let init = raw.drop_last();
        let last = raw.last();
        let init_parts = init.map_values(|c: char| escaped_char(c));
        lemma_escaped_is_inert(init);
        assert(parts =~= init_parts.push(escaped_char(last)));
        init_parts.lemma_flatten_push(escaped_char(last));
        reveal_strlit("&lt;");
        reveal_strlit("&gt;");
        reveal_strlit("&amp;");
        reveal_strlit("&apos;");
        reveal_strlit("&quot;");
        assert(is_inert(escaped_char(last)));
        assert(escaped(raw) =~= escaped(init) + escaped_char(last));
    }
}

/// The outline at `(i, j)`: that of feed `j` of member `i`, a member that
/// takes part in the ring.
pub open spec fn is_outline_of_valid_feed(
    members: Seq<MemberView>,
    outline: OutlineView,
    i: int,
    j: int,
) -> bool {
    &&& 0 <= i < members.len()
    &&& is_valid(members[i])
    &&& 0 <= j < members[i].feeds.len()
    &&& outline == outline_of(members[i], members[i].feeds[j])
}

/// Every outline that a ring contributes is that of a feed of one of its
/// members.
proof fn lemma_contribution_source(ring: Seq<MemberView>, k: int)
    requires
        0 <= k < contributions(ring).flatten().len(),
    ensures
        exists|p: int, j: int|
            0 <= p < ring.len() && 0 <= j < ring[p].feeds.len() && contributions(
                ring,
            ).flatten()[k] == #[trigger] outline_of(ring[p], ring[p].feeds[j]),
    decreases ring.len(),
{
    if ring.len() == 0 {
        assert(contributions(ring) =~= Seq::<Seq<OutlineView>>::empty());
    } else {
        let init = ring.drop_last();
        let last = ring.last();
        assert(contributions(ring) =~= contributions(init).push(outlines_of(last)));
        contributions(init).lemma_flatten_push(outlines_of(last));
        let gathered = contributions(init).flatten();
        if k < gathered.len() {
            lemma_contribution_source(init, k);
            let (p, j) = choose|p: int, j: int|
                0 <= p < init.len() && 0 <= j < init[p].feeds.len() && gathered[k]
                    == #[trigger] outline_of(init[p], init[p].feeds[j]);
            assert(ring[p] == init[p]);
            assert(contributions(ring).flatten()[k] == outline_of(ring[p], ring[p].feeds[j]));
        } else {
            let p = ring.len() - 1;
            let j = k - gathered.len();
            assert(contributions(ring).flatten()[k] == outline_of(ring[p], ring[p].feeds[j]));
        }
    }
}

/// Only valid members feed the list: every outline in it is that of a feed
/// of a member that is not marked invalid.
pub proof fn lemma_outlines_come_from_valid_members(members: Seq<MemberView>, k: int)
    requires
        0 <= k < outline_list(members).len(),
    ensures
        exists|i: int, j: int|
            #[trigger] is_outline_of_valid_feed(members, outline_list(members)[k], i, j),
{
    let ring = valid_ring(members);
    lemma_contribution_source(ring, k);
    let (p, j) = choose|p: int, j: int|
        0 <= p < ring.len() && 0 <= j < ring[p].feeds.len() && outline_list(members)[k]
            == #[trigger] outline_of(ring[p], ring[p].feeds[j]);
    lemma_valid_ring_members(members);
    assert(is_valid(ring[p]) && members.contains(ring[p]));
    let i = choose|i: int| 0 <= i < members.len() && members[i] == ring[p];
    assert(is_outline_of_valid_feed(members, outline_list(members)[k], i, j));
}

/// A member marked invalid adds nothing to the list, wherever in the
/// registry it stands and however many feeds it declares.
pub proof fn lemma_invalid_member_adds_nothing(
    before: Seq<MemberView>,
    member: MemberView,
    after: Seq<MemberView>,
)
    requires
        member.invalid,
    ensures
        outline_list(before + seq![member] + after) == outline_list(before + after),
{
    assert(before + seq![member] =~= before.push(member));
    lemma_valid_ring_push(before, member);
    lemma_valid_ring_add(before.push(member), after);
    lemma_valid_ring_add(before, after);
}

/// Where no member is valid the list is empty.
pub proof fn lemma_no_valid_member_no_outline(members: Seq<MemberView>)
    requires
        valid_ring(members).len() == 0,
    ensures
        outline_list(members).len() == 0,
{
}

/// Calls `quick_xml::escape::escape`.
///
/// Trusted: the result is the argument with `<`, `>`, `&`, `'` and `"`
/// replaced by `&lt;`, `&gt;`, `&amp;`, `&apos;` and `&quot;`, and every
/// other character left as it is.
#[verifier::external_body]
fn xml_escape(raw: &str) -> (text: String)
    ensures
        text@ == escaped(raw@),
{
    quick_xml::escape::escape(raw).into_owned()
}

fn attribute(name: &str, value: &str) -> (text: String)
    ensures
        text@ == attribute_xml(name@, value@),
{
    let mut text = " ".to_owned();
    text.append(name);
    text.append("=\"");
    text.append(xml_escape(value).as_str());
    text.append("\"");
    text
}

impl Outline {
    /// The outline of one feed of a member.
    pub fn new(member: &Member, feed: &Feed) -> (outline: Outline)
        ensures
            outline@ == outline_of(member@, feed@),
    {
        let title = match &feed.title {
            Some(t) => t.clone(),
            None => member.name.clone(),
        };
        let html_url = match &feed.html_url {
            Some(page) => page.clone(),
            None => member.url.clone(),
        };
        Outline {
            text: title.clone(),
            title,
            typ: FEED_TYPE.to_owned(),
            xml_url: feed.xml_url.clone(),
            html_url,
        }
    }

    /// The outline as an XML element.
    pub fn to_xml(&self) -> (text: String)
        ensures
            text@ == outline_xml(self@),
    {
        let mut text = "<outline".to_owned();
        text.append(attribute("text", self.text.as_str()).as_str());
        text.append(attribute("title", self.title.as_str()).as_str());
        text.append(attribute("type", self.typ.as_str()).as_str());
        text.append(attribute("xmlUrl", self.xml_url.as_str()).as_str());
        text.append(attribute("htmlUrl", self.html_url.as_str()).as_str());
        text.append("/>");
        text
    }
}

/// Gathers the outlines of the feed list: every feed of every valid member,
/// in registry order and in the order the member declared them. Members
/// marked invalid contribute nothing, however many feeds they declare.
pub fn outlines(fire_chicken: &FireChicken) -> (list: Vec<Outline>)
    ensures
        outline_views(list@) == outline_list(fire_chicken@),
{
    let ring = fire_chicken.valid_members();
    let mut list: Vec<Outline> = Vec::new();
    let mut k: usize = 0;
    while k < ring.len()
        invariant
            k <= ring.len(),
            outline_views(list@) =~= contributions(views(ring@).take(k as int)).flatten(),
        decreases ring.len() - k,
    {
        let member: &Member = ring[k];
        let ghost gathered = outline_views(list@);
        let mut j: usize = 0;
        while j < member.rss_feeds.len()
            invariant
                j <= member.rss_feeds.len(),
                outline_views(list@) =~= gathered + outlines_of(member@).take(j as int),
            decreases member.rss_feeds.len() - j,
        {
            let outline = Outline::new(member, &member.rss_feeds[j]);
            proof {
                assert(outline_views(list@.push(outline)) =~= outline_views(list@).push(
                    outline@,
                ));
            }
            list.push(outline);
            j += 1;
        }
        proof {
            let before = views(ring@).take(k as int);
            assert(contributions(views(ring@).take(k + 1)) =~= contributions(before).push(
                outlines_of(member@),
            ));
            contributions(before).lemma_flatten_push(outlines_of(member@));
        }
        k += 1;
    }
    assert(views(ring@).take(ring.len() as int) =~= views(ring@));
    list
}

/// Puts the document together for a time of creation that has been written
/// out already.
pub fn document(fire_chicken: &FireChicken, date_created: &str) -> (doc: Opml)
    ensures
        doc@ == document_of(fire_chicken@, date_created@),
{
    Opml {
        version: VERSION.to_owned(),
        title: TITLE.to_owned(),
        date_created: date_created.to_owned(),
        outlines: outlines(fire_chicken),
    }
}

impl Opml {
    /// The document as XML text: the declaration, then the `opml` element
    /// with its head and its body.
    pub fn to_xml(&self) -> (text: String)
        ensures
            text@ == opml_xml(self@),
    {
        let mut text = XML_DECLARATION.to_owned();
        text.append("<opml");
        text.append(attribute("version", self.version.as_str()).as_str());
        text.append(">");
        let mut head = "<head><title>".to_owned();
        head.append(xml_escape(self.title.as_str()).as_str());
        head.append("</title><date_created>");
        head.append(xml_escape(self.date_created.as_str()).as_str());
        head.append("</date_created></head>");
        text.append(head.as_str());
        if self.outlines.len() == 0 {
            text.append("<body/>");
        } else {
            let mut body = "<body>".to_owned();
            let mut rows = String::new();
            let mut k: usize = 0;
            while k < self.outlines.len()
                invariant
                    k <= self.outlines.len(),
                    rows@ == outlines_xml(outline_views(self.outlines@).take(k as int)),
                decreases self.outlines.len() - k,
            {
                let row = self.outlines[k].to_xml();
                proof {
                    let written = outline_views(self.outlines@).take(k as int);
                    assert(outline_views(self.outlines@).take(k + 1) =~= written.push(
                        self.outlines[k as int]@,
                    ));
                    lemma_outlines_xml_push(written, self.outlines[k as int]@);
                }
                rows.append(row.as_str());
                k += 1;
            }
            assert(outline_views(self.outlines@).take(self.outlines.len() as int)
                =~= outline_views(self.outlines@));
            body.append(rows.as_str());
            body.append("</body>");
            text.append(body.as_str());
        }
        text.append("</opml>");
        text
    }
}

/// Renders the feed list of a registry, created at the instant
/// `generated_at` (seconds since the start of 1970, UTC). An empty registry,
/// or one whose valid members have no feeds, still gives a whole document,
/// with an empty body. The answer is `None` only where the instant cannot be
/// written as a date.
pub fn render(fire_chicken: &FireChicken, generated_at: i64) -> (xml: Option<String>)
    ensures
        text_of(xml) == rendered(fire_chicken@, generated_at as int),
{
    match serialize(generated_at) {
        Some(date) => Some(document(fire_chicken, date.as_str()).to_xml()),
        None => None,
    }
}

} // verus!
