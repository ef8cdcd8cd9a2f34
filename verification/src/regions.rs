//! Where the news of a region or a country comes from: the RSS feeds of each
//! region, and the country codes of the GNews service.

use vstd::prelude::*;
use crate::text;

verus! {

/// Whether `s` holds the text of `lit`.
fn is_text(s: &String, lit: &str) -> (b: bool)
    ensures
        b == (s@ == lit@),
{
    *s == String::from_str(lit)
}

/// The RSS feeds of a region, by its lowercase name or abbreviation.
pub open spec fn feeds_for(key: Seq<char>) -> Seq<Seq<char>> {
    if key == "global"@ || key == "world"@ {
        seq!["https://feeds.bbci.co.uk/news/world/rss.xml"@]
    } else if key == "china"@ {
        seq!["https://www.cgtn.com/subscribe/rss/section/world.xml"@]
    } else if key == "india"@ {
        seq!["https://feeds.feedburner.com/ndtvnews-top-stories"@]
    } else if key == "australia"@ || key == "au"@ {
        seq!["https://www.abc.net.au/news/feed/2942460/rss.xml"@]
    } else if key == "europe"@ || key == "eu"@ {
        seq!["https://rss.dw.com/rdf/rss-en-all"@]
    } else if key == "france"@ || key == "fr"@ {
        seq!["https://www.france24.com/en/rss"@]
    } else if key == "germany"@ || key == "de"@ {
        seq!["https://rss.dw.com/rdf/rss-en-all"@]
    } else if key == "middle-east"@ || key == "mideast"@ {
        seq!["https://www.aljazeera.com/xml/rss/all.xml"@]
    } else if key == "africa"@ {
        seq!["https://www.aljazeera.com/xml/rss/all.xml"@]
    } else if key == "uk"@ {
        seq!["https://feeds.bbci.co.uk/news/rss.xml"@]
    } else {
        Seq::empty()
    }
}

/// The texts of a list of string slices.
pub open spec fn texts(v: Seq<&str>) -> Seq<Seq<char>> {
    v.map_values(|s: &str| s@)
}

fn one_feed(url: &'static str) -> (v: Vec<&'static str>)
    ensures
        texts(v@) == seq![url@],
        v.len() == 1,
{
    let mut v: Vec<&'static str> = Vec::new();
    v.push(url);
    assert(texts(v@) =~= seq![url@]);
    v
}

/// The RSS feeds for a region given by its lowercase name; empty for a
/// region that has none.
pub fn feeds_for_key(key: &String) -> (urls: Vec<&'static str>)
    ensures
        texts(urls@) == feeds_for(key@),
        urls.len() <= 1,
{
    if is_text(key, "global") || is_text(key, "world") {
        one_feed("https://feeds.bbci.co.uk/news/world/rss.xml")
    } else if is_text(key, "china") {
        one_feed("https://www.cgtn.com/subscribe/rss/section/world.xml")
    } else if is_text(key, "india") {
        one_feed("https://feeds.feedburner.com/ndtvnews-top-stories")
    } else if is_text(key, "australia") || is_text(key, "au") {
        one_feed("https://www.abc.net.au/news/feed/2942460/rss.xml")
    } else if is_text(key, "europe") || is_text(key, "eu") {
        one_feed("https://rss.dw.com/rdf/rss-en-all")
    } else if is_text(key, "france") || is_text(key, "fr") {
        one_feed("https://www.france24.com/en/rss")
    } else if is_text(key, "germany") || is_text(key, "de") {
        one_feed("https://rss.dw.com/rdf/rss-en-all")
    } else if is_text(key, "middle-east") || is_text(key, "mideast") {
        one_feed("https://www.aljazeera.com/xml/rss/all.xml")
    } else if is_text(key, "africa") {
        one_feed("https://www.aljazeera.com/xml/rss/all.xml")
    } else if is_text(key, "uk") {
        one_feed("https://feeds.bbci.co.uk/news/rss.xml")
    } else {
        let v: Vec<&'static str> = Vec::new();
        assert(texts(v@) =~= Seq::<Seq<char>>::empty());
        v
    }
}

/// The RSS feeds of a region; the name is matched without regard to case
/// (after Unicode lowercasing). Unknown regions have no feed.
pub fn get_rss_urls(region: &str) -> (urls: Vec<&'static str>)
    ensures
        texts(urls@) == feeds_for(text::lowercase(region@)),
        urls.len() <= 1,
{
    let key = text::to_lowercase(region);
    feeds_for_key(&key)
}

/// The names and abbreviations of the region table, character by character.
proof fn lemma_region_literals()
    ensures
        "global"@ == seq!['g', 'l', 'o', 'b', 'a', 'l'],
        "world"@ == seq!['w', 'o', 'r', 'l', 'd'],
        "china"@ == seq!['c', 'h', 'i', 'n', 'a'],
        "india"@ == seq!['i', 'n', 'd', 'i', 'a'],
        "australia"@ == seq!['a', 'u', 's', 't', 'r', 'a', 'l', 'i', 'a'],
        "au"@ == seq!['a', 'u'],
        "europe"@ == seq!['e', 'u', 'r', 'o', 'p', 'e'],
        "eu"@ == seq!['e', 'u'],
        "france"@ == seq!['f', 'r', 'a', 'n', 'c', 'e'],
        "fr"@ == seq!['f', 'r'],
        "germany"@ == seq!['g', 'e', 'r', 'm', 'a', 'n', 'y'],
        "de"@ == seq!['d', 'e'],
        "middle-east"@ == seq!['m', 'i', 'd', 'd', 'l', 'e', '-', 'e', 'a', 's', 't'],
        "mideast"@ == seq!['m', 'i', 'd', 'e', 'a', 's', 't'],
        "africa"@ == seq!['a', 'f', 'r', 'i', 'c', 'a'],
        "uk"@ == seq!['u', 'k'],
{
    reveal_strlit("global");
    reveal_strlit("world");
    reveal_strlit("china");
    reveal_strlit("india");
    reveal_strlit("australia");
    reveal_strlit("au");
    reveal_strlit("europe");
    reveal_strlit("eu");
    reveal_strlit("france");
    reveal_strlit("fr");
    reveal_strlit("germany");
    reveal_strlit("de");
    reveal_strlit("middle-east");
    reveal_strlit("mideast");
    reveal_strlit("africa");
    reveal_strlit("uk");
    assert("global"@ =~= seq!['g', 'l', 'o', 'b', 'a', 'l']);
    assert("world"@ =~= seq!['w', 'o', 'r', 'l', 'd']);
    assert("china"@ =~= seq!['c', 'h', 'i', 'n', 'a']);
    assert("india"@ =~= seq!['i', 'n', 'd', 'i', 'a']);
    assert("australia"@ =~= seq!['a', 'u', 's', 't', 'r', 'a', 'l', 'i', 'a']);
    assert("au"@ =~= seq!['a', 'u']);
    assert("europe"@ =~= seq!['e', 'u', 'r', 'o', 'p', 'e']);
    assert("eu"@ =~= seq!['e', 'u']);
    assert("france"@ =~= seq!['f', 'r', 'a', 'n', 'c', 'e']);
    assert("fr"@ =~= seq!['f', 'r']);
    assert("germany"@ =~= seq!['g', 'e', 'r', 'm', 'a', 'n', 'y']);
    assert("de"@ =~= seq!['d', 'e']);
    assert("middle-east"@ =~= seq!['m', 'i', 'd', 'd', 'l', 'e', '-', 'e', 'a', 's', 't']);
    assert("mideast"@ =~= seq!['m', 'i', 'd', 'e', 'a', 's', 't']);
    assert("africa"@ =~= seq!['a', 'f', 'r', 'i', 'c', 'a']);
    assert("uk"@ =~= seq!['u', 'k']);
}

/// Every region that the regional news tool lists as available has one
/// feed, and a region's abbreviation gives the same feeds as its name.
/// Germany reads Europe's feed and Africa that of the Middle East, while
/// the UK has a feed of its own, apart from the world's.
pub proof fn lemma_listed_regions_have_feeds()
    ensures
        feeds_for("global"@).len() == 1,
        feeds_for("china"@).len() == 1,
        feeds_for("india"@).len() == 1,
        feeds_for("australia"@).len() == 1,
        feeds_for("europe"@).len() == 1,
        feeds_for("middle-east"@).len() == 1,
        feeds_for("france"@).len() == 1,
        feeds_for("germany"@).len() == 1,
        feeds_for("uk"@).len() == 1,
        feeds_for("world"@) == feeds_for("global"@),
        feeds_for("au"@) == feeds_for("australia"@),
        feeds_for("eu"@) == feeds_for("europe"@),
        feeds_for("fr"@) == feeds_for("france"@),
        feeds_for("de"@) == feeds_for("germany"@),
        feeds_for("mideast"@) == feeds_for("middle-east"@),
        feeds_for("germany"@) == feeds_for("europe"@),
        feeds_for("africa"@) == feeds_for("middle-east"@),
        feeds_for("uk"@) != feeds_for("global"@),
{
    lemma_region_literals();
    reveal_strlit("https://feeds.bbci.co.uk/news/rss.xml");
    reveal_strlit("https://feeds.bbci.co.uk/news/world/rss.xml");
    assert(feeds_for("uk"@)[0].len() != feeds_for("global"@)[0].len());
}

/// The GNews country code for a lowercase country name or code; any other
/// text is its own code.
pub open spec fn gnews_code(key: Seq<char>) -> Seq<char> {
    if key == "kenya"@ || key == "ke"@ {
        "ke"@
    } else if key == "nigeria"@ || key == "ng"@ {
        "ng"@
    } else if key == "south africa"@ || key == "za"@ {
        "za"@
    } else if key == "india"@ || key == "in"@ {
        "in"@
    } else if key == "china"@ || key == "cn"@ {
        "cn"@
    } else if key == "australia"@ || key == "au"@ {
        "au"@
    } else if key == "united kingdom"@ || key == "uk"@ || key == "gb"@ {
        "gb"@
    } else if key == "united states"@ || key == "us"@ || key == "usa"@ {
        "us"@
    } else if key == "france"@ || key == "fr"@ {
        "fr"@
    } else if key == "germany"@ || key == "de"@ {
        "de"@
    } else if key == "uae"@ || key == "ae"@ {
        "ae"@
    } else if key == "japan"@ || key == "jp"@ {
        "jp"@
    } else if key == "brazil"@ || key == "br"@ {
        "br"@
    } else if key == "egypt"@ || key == "eg"@ {
        "eg"@
    } else {
        key
    }
}

/// The GNews country code for a lowercase country name or code.
pub fn gnews_code_for_key(key: String) -> (code: String)
    ensures
        code@ == gnews_code(key@),
{
    let lit = if is_text(&key, "kenya") || is_text(&key, "ke") {
        "ke"
    } else if is_text(&key, "nigeria") || is_text(&key, "ng") {
        "ng"
    } else if is_text(&key, "south africa") || is_text(&key, "za") {
        "za"
    } else if is_text(&key, "india") || is_text(&key, "in") {
        "in"
    } else if is_text(&key, "china") || is_text(&key, "cn") {
        "cn"
    } else if is_text(&key, "australia") || is_text(&key, "au") {
        "au"
    } else if is_text(&key, "united kingdom") || is_text(&key, "uk") || is_text(&key, "gb") {
        "gb"
    } else if is_text(&key, "united states") || is_text(&key, "us") || is_text(&key, "usa") {
        "us"
    } else if is_text(&key, "france") || is_text(&key, "fr") {
        "fr"
    } else if is_text(&key, "germany") || is_text(&key, "de") {
        "de"
    } else if is_text(&key, "uae") || is_text(&key, "ae") {
        "ae"
    } else if is_text(&key, "japan") || is_text(&key, "jp") {
        "jp"
    } else if is_text(&key, "brazil") || is_text(&key, "br") {
        "br"
    } else if is_text(&key, "egypt") || is_text(&key, "eg") {
        "eg"
    } else {
        return key;
    };
    String::from_str(lit)
}

/// The GNews country code for a country: the names and codes of the
/// countries that GNews knows are matched without regard to case (after
/// Unicode lowercasing); any other country is passed on lowercased.
pub fn country_to_gnews_code(country: &str) -> (code: String)
    ensures
        code@ == gnews_code(text::lowercase(country@)),
{
    let key = text::to_lowercase(country);
    gnews_code_for_key(key)
}

/// The names and codes of the country table, character by character.
proof fn lemma_country_literals()
    ensures
        "kenya"@ == seq!['k', 'e', 'n', 'y', 'a'],
        "ke"@ == seq!['k', 'e'],
        "nigeria"@ == seq!['n', 'i', 'g', 'e', 'r', 'i', 'a'],
        "ng"@ == seq!['n', 'g'],
        "south africa"@ == seq!['s', 'o', 'u', 't', 'h', ' ', 'a', 'f', 'r', 'i', 'c', 'a'],
        "za"@ == seq!['z', 'a'],
        "india"@ == seq!['i', 'n', 'd', 'i', 'a'],
        "in"@ == seq!['i', 'n'],
        "china"@ == seq!['c', 'h', 'i', 'n', 'a'],
        "cn"@ == seq!['c', 'n'],
        "australia"@ == seq!['a', 'u', 's', 't', 'r', 'a', 'l', 'i', 'a'],
        "au"@ == seq!['a', 'u'],
        "united kingdom"@ == seq!['u', 'n', 'i', 't', 'e', 'd', ' ', 'k', 'i', 'n', 'g', 'd', 'o', 'm'],
        "uk"@ == seq!['u', 'k'],
        "gb"@ == seq!['g', 'b'],
        "united states"@ == seq!['u', 'n', 'i', 't', 'e', 'd', ' ', 's', 't', 'a', 't', 'e', 's'],
        "us"@ == seq!['u', 's'],
        "usa"@ == seq!['u', 's', 'a'],
        "france"@ == seq!['f', 'r', 'a', 'n', 'c', 'e'],
        "fr"@ == seq!['f', 'r'],
        "germany"@ == seq!['g', 'e', 'r', 'm', 'a', 'n', 'y'],
        "de"@ == seq!['d', 'e'],
        "uae"@ == seq!['u', 'a', 'e'],
        "ae"@ == seq!['a', 'e'],
        "japan"@ == seq!['j', 'a', 'p', 'a', 'n'],
        "jp"@ == seq!['j', 'p'],
        "brazil"@ == seq!['b', 'r', 'a', 'z', 'i', 'l'],
        "br"@ == seq!['b', 'r'],
        "egypt"@ == seq!['e', 'g', 'y', 'p', 't'],
        "eg"@ == seq!['e', 'g'],
{
    reveal_strlit("kenya");
    reveal_strlit("ke");
    reveal_strlit("nigeria");
    reveal_strlit("ng");
    reveal_strlit("south africa");
    reveal_strlit("za");
    reveal_strlit("india");
    reveal_strlit("in");
    reveal_strlit("china");
    reveal_strlit("cn");
    reveal_strlit("australia");
    reveal_strlit("au");
    reveal_strlit("united kingdom");
    reveal_strlit("uk");
    reveal_strlit("gb");
    reveal_strlit("united states");
    reveal_strlit("us");
    reveal_strlit("usa");
    reveal_strlit("france");
    reveal_strlit("fr");
    reveal_strlit("germany");
    reveal_strlit("de");
    reveal_strlit("uae");
    reveal_strlit("ae");
    reveal_strlit("japan");
    reveal_strlit("jp");
    reveal_strlit("brazil");
    reveal_strlit("br");
    reveal_strlit("egypt");
    reveal_strlit("eg");
    assert("kenya"@ =~= seq!['k', 'e', 'n', 'y', 'a']);
    assert("ke"@ =~= seq!['k', 'e']);
    assert("nigeria"@ =~= seq!['n', 'i', 'g', 'e', 'r', 'i', 'a']);
    assert("ng"@ =~= seq!['n', 'g']);
    assert("south africa"@ =~= seq!['s', 'o', 'u', 't', 'h', ' ', 'a', 'f', 'r', 'i', 'c', 'a']);
    assert("za"@ =~= seq!['z', 'a']);
    assert("india"@ =~= seq!['i', 'n', 'd', 'i', 'a']);
    assert("in"@ =~= seq!['i', 'n']);
    assert("china"@ =~= seq!['c', 'h', 'i', 'n', 'a']);
    assert("cn"@ =~= seq!['c', 'n']);
    assert("australia"@ =~= seq!['a', 'u', 's', 't', 'r', 'a', 'l', 'i', 'a']);
    assert("au"@ =~= seq!['a', 'u']);
    assert("united kingdom"@ =~= seq!['u', 'n', 'i', 't', 'e', 'd', ' ', 'k', 'i', 'n', 'g', 'd', 'o', 'm']);
    assert("uk"@ =~= seq!['u', 'k']);
    assert("gb"@ =~= seq!['g', 'b']);
    assert("united states"@ =~= seq!['u', 'n', 'i', 't', 'e', 'd', ' ', 's', 't', 'a', 't', 'e', 's']);
    assert("us"@ =~= seq!['u', 's']);
    assert("usa"@ =~= seq!['u', 's', 'a']);
    assert("france"@ =~= seq!['f', 'r', 'a', 'n', 'c', 'e']);
    assert("fr"@ =~= seq!['f', 'r']);
    assert("germany"@ =~= seq!['g', 'e', 'r', 'm', 'a', 'n', 'y']);
    assert("de"@ =~= seq!['d', 'e']);
    assert("uae"@ =~= seq!['u', 'a', 'e']);
    assert("ae"@ =~= seq!['a', 'e']);
    assert("japan"@ =~= seq!['j', 'a', 'p', 'a', 'n']);
    assert("jp"@ =~= seq!['j', 'p']);
    assert("brazil"@ =~= seq!['b', 'r', 'a', 'z', 'i', 'l']);
    assert("br"@ =~= seq!['b', 'r']);
    assert("egypt"@ =~= seq!['e', 'g', 'y', 'p', 't']);
    assert("eg"@ =~= seq!['e', 'g']);
}

/// A code is its own code: looking up the code of a code changes nothing.
pub proof fn lemma_gnews_code_idempotent(key: Seq<char>)
    ensures
        gnews_code(gnews_code(key)) == gnews_code(key),
{
    lemma_country_literals();
}

} // verus!
