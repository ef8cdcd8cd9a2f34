//! RSS feeds: reading the items of a feed document and gathering the items
//! of several feeds.

use vstd::prelude::*;
use crate::markup;
use crate::text;

verus! {

/// One news item read from an RSS feed.
pub struct RssItem {
    pub title: String,
    pub url: String,
    pub date: String,
    pub description: String,
}

/// The text of an RSS item's fields.
pub struct RssEntry {
    pub title: Seq<char>,
    pub url: Seq<char>,
    pub date: Seq<char>,
    pub description: Seq<char>,
}

impl View for RssItem {
    type V = RssEntry;

    open spec fn view(&self) -> RssEntry {
        RssEntry {
            title: self.title@,
            url: self.url@,
            date: self.date@,
            description: self.description@,
        }
    }
}

/// The entries that a list of items holds.
pub open spec fn entries(items: Seq<RssItem>) -> Seq<RssEntry> {
    items.map_values(|i: RssItem| i@)
}

/// The text found, or the empty text.
pub open spec fn text_or_empty(t: Option<Seq<char>>) -> Seq<char> {
    match t {
        Some(x) => x,
        None => Seq::empty(),
    }
}

/// The first `n` characters of `s` (all of them if there are fewer).
pub open spec fn first_chars(s: Seq<char>, n: nat) -> Seq<char> {
    if s.len() <= n {
        s
    } else {
        s.take(n as int)
    }
}

/// The longest description kept, in characters, before HTML is stripped.
pub open spec fn description_limit() -> nat {
    200
}

/// The entry read from the text of one `<item ...>...</item>`: the text of
/// its `title`, `link` and `pubDate` elements, and of its `description`
/// element cut to 200 characters and stripped of HTML.
pub open spec fn rss_entry(item: Seq<char>) -> RssEntry {
    RssEntry {
        title: text_or_empty(markup::tag_text(item, "title"@)),
        url: text_or_empty(markup::tag_text(item, "link"@)),
        date: text_or_empty(markup::tag_text(item, "pubDate"@)),
        description: markup::stripped_html(
            first_chars(text_or_empty(markup::tag_text(item, "description"@)), description_limit()),
        ),
    }
}

/// The entries read from `xml` from position `pos` on, after `found`: each
/// item runs from the next `<item` to the following `</item>`; items without
/// a title are skipped; reading stops when no item is left or once `limit`
/// entries are there (an item is read before the count is checked).
pub open spec fn scan_items(xml: Seq<char>, pos: int, limit: nat, found: Seq<RssEntry>) -> Seq<
    RssEntry,
>
    decreases xml.len() - pos,
{
    if pos < 0 || pos > xml.len() {
        found
    } else {
        match text::find_from(xml, "<item"@, pos) {
            None => found,
            Some(start) => match text::find_from(xml, "</item>"@, start) {
                None => found,
                Some(close) => {
                    proof {
                        text::lemma_find_from_occurs(xml, "<item"@, pos);
                        text::lemma_find_from_occurs(xml, "</item>"@, start);
                        reveal_strlit("</item>");
                    }
                    let end = close + "</item>"@.len();
                    let entry = rss_entry(xml.subrange(start, end));
                    let next = if entry.title.len() > 0 {
                        found.push(entry)
                    } else {
                        found
                    };
                    if next.len() >= limit {
                        next
                    } else {
                        scan_items(xml, end, limit, next)
                    }
                },
            },
        }
    }
}

/// The entries that `parse_rss_items` reads from a whole document.
pub open spec fn rss_entries(xml: Seq<char>, limit: nat) -> Seq<RssEntry> {
    scan_items(xml, 0, limit, Seq::empty())
}

/// What every entry read from a feed looks like: a non-empty trimmed title,
/// trimmed link and date, and a description that is trimmed plain text of at
/// most 200 characters.
pub open spec fn well_formed_entry(e: RssEntry) -> bool {
    &&& e.title.len() > 0
    &&& text::is_trimmed(e.title)
    &&& text::is_trimmed(e.url)
    &&& text::is_trimmed(e.date)
    &&& text::is_trimmed(e.description)
    &&& markup::no_angle_brackets(e.description)
    &&& e.description.len() <= description_limit()
}

/// Builds the item for one `<item>` element.
fn read_item(item: &Vec<char>, tags: &ItemTags) -> (r: RssItem)
    requires
        tags.wf(),
    ensures
        r@ == rss_entry(item@),
{
    let title = text_or_empty_exec(markup::extract_tag_chars(item, &tags.title));
    let url = text_or_empty_exec(markup::extract_tag_chars(item, &tags.link));
    let date = text_or_empty_exec(markup::extract_tag_chars(item, &tags.pub_date));
    let full = text_or_empty_exec(markup::extract_tag_chars(item, &tags.description));
    let cut = if full.len() <= 200 {
        full
    } else {
        text::copy_range(&full, 0, 200)
    };
    let description = markup::strip_html_chars(&cut);
    RssItem {
        title: text::string_of(title.as_slice()),
        url: text::string_of(url.as_slice()),
        date: text::string_of(date.as_slice()),
        description: text::string_of(description.as_slice()),
    }
}

fn text_or_empty_exec(t: Option<Vec<char>>) -> (r: Vec<char>)
    ensures
        r@ == text_or_empty(match t {
            Some(v) => Some(v@),
            None => None,
        }),
{
    match t {
        Some(v) => v,
        None => Vec::new(),
    }
}

/// The element names and markers that reading a feed looks for.
struct ItemTags {
    item_open: Vec<char>,
    item_close: Vec<char>,
    title: Vec<char>,
    link: Vec<char>,
    pub_date: Vec<char>,
    description: Vec<char>,
}

impl ItemTags {
    spec fn wf(&self) -> bool {
        &&& self.item_open@ == "<item"@
        &&& self.item_close@ == "</item>"@
        &&& self.title@ == "title"@
        &&& self.link@ == "link"@
        &&& self.pub_date@ == "pubDate"@
        &&& self.description@ == "description"@
    }

    fn new() -> (r: ItemTags)
        ensures
            r.wf(),
    {
        ItemTags {
            item_open: text::chars_of("<item"),
            item_close: text::chars_of("</item>"),
            title: text::chars_of("title"),
            link: text::chars_of("link"),
            pub_date: text::chars_of("pubDate"),
            description: text::chars_of("description"),
        }
    }
}

fn scan_items_exec(x: &Vec<char>, limit: usize, tags: &ItemTags) -> (items: Vec<RssItem>)
    requires
        tags.wf(),
    ensures
        entries(items@) == rss_entries(x@, limit as nat),
{
    let mut items: Vec<RssItem> = Vec::new();
    let mut pos: usize = 0;
    assert(entries(items@) =~= Seq::<RssEntry>::empty());
    loop
        invariant
            tags.wf(),
            pos <= x.len(),
            rss_entries(x@, limit as nat) == scan_items(x@, pos as int, limit as nat, entries(items@)),
        decreases x.len() - pos,
    {
        let start = match text::find_from_exec(x, &tags.item_open, pos) {
            Some(k) => k,
            None => return items,
        };
        proof {
            text::lemma_find_from_occurs(x@, tags.item_open@, pos as int);
        }
        let close = match text::find_from_exec(x, &tags.item_close, start) {
            Some(k) => k,
            None => return items,
        };
        proof {
            text::lemma_find_from_occurs(x@, tags.item_close@, start as int);
            reveal_strlit("</item>");
        }
        let end = close + tags.item_close.len();
        let item_text = text::copy_range(x, start, end);
        let item = read_item(&item_text, tags);
        let ghost before = entries(items@);
        if !item.title.as_str().is_empty() {
            items.push(item);
            assert(entries(items@) =~= before.push(rss_entry(x@.subrange(start as int, end as int))));
        }
        if items.len() >= limit {
            return items;
        }
        pos = end;
    }
}

/// Reads the news items of an RSS document: each `<item>...</item>` in
/// order, with its title, link, publication date and a plain-text
/// description of at most 200 characters; items without a title are
/// skipped, and reading stops once `limit` items are there.
pub fn parse_rss_items(xml: &str, limit: usize) -> (items: Vec<RssItem>)
    ensures
        entries(items@) == rss_entries(xml@, limit as nat),
        forall|i: int| 0 <= i < items.len() ==> well_formed_entry(#[trigger] items@[i]@),
        items.len() <= limit || (limit == 0 && items.len() <= 1),
{
    let x = text::chars_of(xml);
    let tags = ItemTags::new();
    let items = scan_items_exec(&x, limit, &tags);
    proof {
        lemma_scan_items_shape(xml@, 0, limit as nat, Seq::empty());
        assert forall|i: int| 0 <= i < items.len() implies well_formed_entry(#[trigger] items@[i]@) by {
            assert(entries(items@)[i] == items@[i]@);
        }
    }
    items
}

/// Every entry read from a feed is well formed.
pub proof fn lemma_rss_entry_well_formed(item: Seq<char>)
    requires
        rss_entry(item).title.len() > 0,
    ensures
        well_formed_entry(rss_entry(item)),
{
    let e = rss_entry(item);
    markup::lemma_tag_text_trimmed(item, "title"@);
    markup::lemma_tag_text_trimmed(item, "link"@);
    markup::lemma_tag_text_trimmed(item, "pubDate"@);
    let d = first_chars(text_or_empty(markup::tag_text(item, "description"@)), description_limit());
    markup::lemma_stripped_html_shape(d);
    markup::lemma_stripped_html_len(d);
}

/// Reading entries keeps them well formed and stops at the limit.
pub proof fn lemma_scan_items_shape(xml: Seq<char>, pos: int, limit: nat, found: Seq<RssEntry>)
    requires
        forall|i: int| 0 <= i < found.len() ==> well_formed_entry(#[trigger] found[i]),
        found.len() < limit || found.len() == 0,
    ensures
        forall|i: int|
            0 <= i < scan_items(xml, pos, limit, found).len() ==> well_formed_entry(
                #[trigger] scan_items(xml, pos, limit, found)[i],
            ),
        scan_items(xml, pos, limit, found).len() <= limit || (limit == 0 && scan_items(
            xml,
            pos,
            limit,
            found,
        ).len() <= 1),
    decreases xml.len() - pos,
{
    if pos < 0 || pos > xml.len() {
    } else {
        match text::find_from(xml, "<item"@, pos) {
            None => {},
            Some(start) => match text::find_from(xml, "</item>"@, start) {
                None => {},
                Some(close) => {
                    text::lemma_find_from_occurs(xml, "<item"@, pos);
                    text::lemma_find_from_occurs(xml, "</item>"@, start);
                    reveal_strlit("</item>");
                    let end = close + "</item>"@.len();
                    let entry = rss_entry(xml.subrange(start, end));
                    let next = if entry.title.len() > 0 {
                        found.push(entry)
                    } else {
                        found
                    };
                    if entry.title.len() > 0 {
                        lemma_rss_entry_well_formed(xml.subrange(start, end));
                        assert forall|i: int| 0 <= i < next.len() implies well_formed_entry(
                            #[trigger] next[i],
                        ) by {
                            if i < found.len() {
                                assert(next[i] == found[i]);
                            }
                        }
                    }
                    if next.len() >= limit {
                    } else {
                        lemma_scan_items_shape(xml, end, limit, next);
                    }
                },
            },
        }
    }
}

/// Reading goes on from where the entries found so far stand: they stay,
/// in order, at the front of what is read.
proof fn lemma_scan_items_keeps_found(doc: Seq<char>, at: int, limit: nat, so_far: Seq<RssEntry>)
    ensures
        scan_items(doc, at, limit, so_far).len() >= so_far.len(),
        forall|i: int|
            0 <= i < so_far.len() ==> #[trigger] scan_items(doc, at, limit, so_far)[i] == so_far[i],
    decreases doc.len() - at,
{
    let opening = "<item"@;
    let closing = "</item>"@;
    if 0 <= at <= doc.len() {
        if let Some(first) = text::find_from(doc, opening, at) {
            if let Some(last) = text::find_from(doc, closing, first) {
                text::lemma_find_from_occurs(doc, opening, at);
                text::lemma_find_from_occurs(doc, closing, first);
                reveal_strlit("</item>");
                let after = last + closing.len();
                let e = rss_entry(doc.subrange(first, after));
                let more = if e.title.len() > 0 {
                    so_far.push(e)
                } else {
                    so_far
                };
                if more.len() < limit {
                    lemma_scan_items_keeps_found(doc, after, limit, more);
                }
            }
        }
    }
}

/// An item begins at the first occurrence of the marker `<item`, whatever
/// follows it (`>` or attributes such as `rdf:about`), and runs to the next
/// `</item>`: where that item has a title, it is the first entry read, for
/// every limit of at least one. Where the document holds no `<item`, no
/// entry is read.
pub proof fn lemma_first_item_read(doc: Seq<char>, limit: nat, first: int, last: int)
    requires
        limit >= 1,
        text::find_from(doc, "<item"@, 0) == Some(first),
        text::find_from(doc, "</item>"@, first) == Some(last),
        rss_entry(doc.subrange(first, last + "</item>"@.len())).title.len() > 0,
    ensures
        text::occurs_at(doc, "<item"@, first),
        rss_entries(doc, limit).len() >= 1,
        rss_entries(doc, limit)[0] == rss_entry(doc.subrange(first, last + "</item>"@.len())),
{
    text::lemma_find_from_occurs(doc, "<item"@, 0);
    text::lemma_find_from_occurs(doc, "</item>"@, first);
    reveal_strlit("</item>");
    let after = last + "</item>"@.len();
    let e = rss_entry(doc.subrange(first, after));
    let one = Seq::<RssEntry>::empty().push(e);
    assert(rss_entries(doc, limit) == if one.len() >= limit {
        one
    } else {
        scan_items(doc, after, limit, one)
    });
    if one.len() < limit {
        lemma_scan_items_keeps_found(doc, after, limit, one);
    }
}

/// A document without the marker `<item` gives no entry.
pub proof fn lemma_no_item_marker(doc: Seq<char>, limit: nat)
    requires
        text::find_from(doc, "<item"@, 0) is None,
    ensures
        rss_entries(doc, limit).len() == 0,
{
}

} // verus!
