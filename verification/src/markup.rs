//! Reading markup: the text of an XML element and the removal of HTML tags.

use vstd::prelude::*;
use crate::text;

verus! {

// ---------------------------------------------------------------------------
// HTML stripping
// ---------------------------------------------------------------------------

/// The characters of `s` that lie outside `<...>` tags, when scanning starts
/// inside a tag exactly if `in_tag` holds. `<` opens a tag and `>` closes one;
/// neither is kept.
pub open spec fn outside_tags(s: Seq<char>, in_tag: bool) -> Seq<char>
    decreases s.len(),
{
    if s.len() == 0 {
        Seq::empty()
    } else if s[0] == '<' {
        outside_tags(s.drop_first(), true)
    } else if s[0] == '>' {
        outside_tags(s.drop_first(), false)
    } else if !in_tag {
        seq![s[0]] + outside_tags(s.drop_first(), in_tag)
    } else {
        outside_tags(s.drop_first(), in_tag)
    }
}

/// The text of `s` with HTML tags removed and white space trimmed.
pub open spec fn stripped_html(s: Seq<char>) -> Seq<char> {
    text::trim(outside_tags(s, false))
}

/// `s` holds neither `<` nor `>`.
pub open spec fn no_angle_brackets(s: Seq<char>) -> bool {
    forall|i: int| 0 <= i < s.len() ==> s[i] != '<' && s[i] != '>'
}

/// Removes HTML tags and trims the rest.
pub fn strip_html_chars(s: &Vec<char>) -> (r: Vec<char>)
    ensures
        r@ == stripped_html(s@),
{
    let mut out: Vec<char> = Vec::new();
    let mut in_tag = false;
    let mut i: usize = 0;
    assert(s@.skip(0) =~= s@);
    assert(out@ + outside_tags(s@, false) =~= outside_tags(s@, false));
    while i < s.len()
        invariant
            i <= s.len(),
            outside_tags(s@, false) == out@ + outside_tags(s@.skip(i as int), in_tag),
        decreases s.len() - i,
    {
        let c = s[i];
        let ghost rest = s@.skip(i + 1);
        assert(s@.skip(i as int).drop_first() =~= rest);
        if c == '<' {
            in_tag = true;
        } else if c == '>' {
            in_tag = false;
        } else if !in_tag {
            let ghost before = out@;
            out.push(c);
            assert(before + (seq![c] + outside_tags(rest, in_tag)) =~= out@ + outside_tags(rest, in_tag));
        }
        i = i + 1;
    }
    assert(s@.skip(i as int) =~= Seq::<char>::empty());
    assert(out@ + Seq::<char>::empty() =~= out@);
    text::trim_exec(&out)
}

/// Returns the text of `s` with everything between `<` and `>` removed,
/// leading and trailing white space trimmed.
pub fn strip_html(s: &str) -> (r: String)
    ensures
        r@ == stripped_html(s@),
        no_angle_brackets(r@),
        text::is_trimmed(r@),
{
    proof {
        lemma_stripped_html_shape(s@);
    }
    let cs = text::chars_of(s);
    let out = strip_html_chars(&cs);
    text::string_of(out.as_slice())
}

/// What `strip_html` returns holds no angle bracket and is trimmed.
pub proof fn lemma_stripped_html_shape(s: Seq<char>)
    ensures
        no_angle_brackets(stripped_html(s)),
        text::is_trimmed(stripped_html(s)),
{
    lemma_outside_tags_no_brackets(s, false);
    text::lemma_trim_is_trimmed(outside_tags(s, false));
    lemma_trim_within(outside_tags(s, false));
}

proof fn lemma_outside_tags_no_brackets(s: Seq<char>, in_tag: bool)
    ensures
        no_angle_brackets(outside_tags(s, in_tag)),
    decreases s.len(),
{
    if s.len() > 0 {
        lemma_outside_tags_no_brackets(s.drop_first(), true);
        lemma_outside_tags_no_brackets(s.drop_first(), false);
        lemma_outside_tags_no_brackets(s.drop_first(), in_tag);
        let r = outside_tags(s.drop_first(), in_tag);
        if s[0] != '<' && s[0] != '>' && !in_tag {
            assert forall|i: int| 0 <= i < (seq![s[0]] + r).len() implies (seq![s[0]] + r)[i] != '<'
                && (seq![s[0]] + r)[i] != '>' by {
                if i > 0 {
                    assert((seq![s[0]] + r)[i] == r[i - 1]);
                }
            }
        }
    }
}

/// Text without brackets of which nothing can be stripped stays the same.
proof fn lemma_outside_tags_plain(s: Seq<char>)
    requires
        no_angle_brackets(s),
    ensures
        outside_tags(s, false) == s,
    decreases s.len(),
{
    if s.len() > 0 {
        lemma_outside_tags_plain(s.drop_first());
        assert(seq![s[0]] + s.drop_first() =~= s);
    }
}

/// Every character of `text::trim(s)` is a character of `s`.
proof fn lemma_trim_within(s: Seq<char>)
    ensures
        forall|i: int| 0 <= i < text::trim(s).len() ==> exists|j: int| 0 <= j < s.len() && s[j] == #[trigger] text::trim(s)[i],
{
    text::lemma_trim_sub(s);
}

/// Stripping HTML never lengthens the text.
pub proof fn lemma_stripped_html_len(s: Seq<char>)
    ensures
        stripped_html(s).len() <= s.len(),
{
    lemma_outside_tags_len(s, false);
    text::lemma_trim_sub(outside_tags(s, false));
}

proof fn lemma_outside_tags_len(s: Seq<char>, in_tag: bool)
    ensures
        outside_tags(s, in_tag).len() <= s.len(),
    decreases s.len(),
{
    if s.len() > 0 {
        lemma_outside_tags_len(s.drop_first(), true);
        lemma_outside_tags_len(s.drop_first(), false);
    }
}

/// Stripping HTML twice gives what stripping once gives.
pub proof fn lemma_strip_html_idempotent(s: Seq<char>)
    ensures
        stripped_html(stripped_html(s)) == stripped_html(s),
{
    let t = stripped_html(s);
    lemma_stripped_html_shape(s);
    lemma_outside_tags_plain(t);
    text::lemma_trim_of_trimmed(t);
}

// ---------------------------------------------------------------------------
// Element text
// ---------------------------------------------------------------------------

/// The start of an element named `tag`: `<tag`.
pub open spec fn open_tag(tag: Seq<char>) -> Seq<char> {
    seq!['<'] + tag
}

/// The end of an element named `tag`: `</tag>`.
pub open spec fn close_tag(tag: Seq<char>) -> Seq<char> {
    seq!['<', '/'] + tag + seq!['>']
}

/// The text inside a CDATA section is kept as it is.
pub open spec fn unwrap_cdata(raw: Seq<char>) -> Seq<char> {
    if text::occurs_at(raw, "<![CDATA["@, 0) {
        text::strip_suffixes(text::strip_prefixes(raw, "<![CDATA["@), "]]>"@)
    } else {
        raw
    }
}

/// The trimmed text of the first element named `tag` in `xml`: the text
/// from the first `>` after the first `<tag` up to the next `</tag>`, with a
/// surrounding CDATA marker removed. `None` where one of the three is missing.
pub open spec fn tag_text(xml: Seq<char>, tag: Seq<char>) -> Option<Seq<char>> {
    match text::find_from(xml, open_tag(tag), 0) {
        None => None,
        Some(start) => match text::find_from(xml, seq!['>'], start) {
            None => None,
            Some(gt) => match text::find_from(xml, close_tag(tag), gt + 1) {
                None => None,
                Some(end) => Some(text::trim(unwrap_cdata(xml.subrange(gt + 1, end)))),
            },
        },
    }
}

/// The text of the first element named `tag`, on characters.
pub fn extract_tag_chars(xml: &Vec<char>, tag: &Vec<char>) -> (r: Option<Vec<char>>)
    ensures
        match r {
            Some(t) => tag_text(xml@, tag@) == Some(t@),
            None => tag_text(xml@, tag@) is None,
        },
{
    let mut open: Vec<char> = Vec::new();
    open.push('<');
    text::push_all(&mut open, tag);
    assert(open@ =~= open_tag(tag@));
    let mut close: Vec<char> = Vec::new();
    close.push('<');
    close.push('/');
    text::push_all(&mut close, tag);
    close.push('>');
    assert(close@ =~= close_tag(tag@));
    let mut gt_pattern: Vec<char> = Vec::new();
    gt_pattern.push('>');
    assert(gt_pattern@ =~= seq!['>']);

    let start = match text::find_from_exec(xml, &open, 0) {
        Some(k) => k,
        None => return None,
    };
    proof {
        text::lemma_find_from_occurs(xml@, open@, 0);
    }
    let gt = match text::find_from_exec(xml, &gt_pattern, start) {
        Some(k) => k,
        None => return None,
    };
    proof {
        text::lemma_find_from_occurs(xml@, gt_pattern@, start as int);
    }
    let content_start = gt + 1;
    let end = match text::find_from_exec(xml, &close, content_start) {
        Some(k) => k,
        None => return None,
    };
    proof {
        text::lemma_find_from_occurs(xml@, close@, content_start as int);
    }
    let raw = text::copy_range(xml, content_start, end);
    let cdata_open = text::chars_of("<![CDATA[");
    let text = if text::occurs_at_exec(&raw, &cdata_open, 0) {
        let inner = text::strip_prefixes_exec(&raw, &cdata_open);
        let cdata_close = text::chars_of("]]>");
        text::strip_suffixes_exec(&inner, &cdata_close)
    } else {
        raw
    };
    Some(text::trim_exec(&text))
}

/// Returns the trimmed text of the first `tag` element of `xml` (CDATA
/// unwrapped), or `None` where the element is not there or not closed.
pub fn extract_tag(xml: &str, tag: &str) -> (r: Option<String>)
    ensures
        match r {
            Some(t) => tag_text(xml@, tag@) == Some(t@) && text::is_trimmed(t@),
            None => tag_text(xml@, tag@) is None,
        },
{
    proof {
        lemma_tag_text_trimmed(xml@, tag@);
    }
    let x = text::chars_of(xml);
    let t = text::chars_of(tag);
    match extract_tag_chars(&x, &t) {
        Some(v) => Some(text::string_of(v.as_slice())),
        None => None,
    }
}

/// Whatever `extract_tag` finds is trimmed.
pub proof fn lemma_tag_text_trimmed(xml: Seq<char>, tag: Seq<char>)
    ensures
        tag_text(xml, tag) matches Some(t) ==> text::is_trimmed(t),
{
    match text::find_from(xml, open_tag(tag), 0) {
        None => {},
        Some(start) => match text::find_from(xml, seq!['>'], start) {
            None => {},
            Some(gt) => match text::find_from(xml, close_tag(tag), gt + 1) {
                None => {},
                Some(end) => {
                    text::lemma_trim_is_trimmed(unwrap_cdata(xml.subrange(gt + 1, end)));
                },
            },
        },
    }
}

} // verus!
