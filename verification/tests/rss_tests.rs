use mcp_news::{get_rss_urls, parse_rss_items};

const FEED: &str = "<rss><channel><title>Feed</title>\
<item><title>First</title><link>https://x/1</link><pubDate>Mon, 01 Jan 2024</pubDate>\
<description><![CDATA[<p>One <b>story</b></p>]]></description></item>\
<item><link>https://x/untitled</link></item>\
<item><title>Second</title><link>https://x/2</link></item>\
<item><title>Third</title></item>\
</channel></rss>";

#[test]
fn parse_rss_items_reads_items_in_order() {
    let items = parse_rss_items(FEED, 10);
    assert_eq!(items.len(), 3);
    assert_eq!(items[0].title, "First");
    assert_eq!(items[0].url, "https://x/1");
    assert_eq!(items[0].date, "Mon, 01 Jan 2024");
    assert_eq!(items[0].description, "One story");
    assert_eq!(items[1].title, "Second");
    assert_eq!(items[1].url, "https://x/2");
    assert_eq!(items[1].date, "");
    assert_eq!(items[1].description, "");
    assert_eq!(items[2].title, "Third");
}

#[test]
fn parse_rss_items_respects_limit() {
    let items = parse_rss_items(FEED, 2);
    assert_eq!(items.len(), 2);
    assert_eq!(items[1].title, "Second");
}

#[test]
fn parse_rss_items_limit_zero_still_reads_one() {
    let items = parse_rss_items(FEED, 0);
    assert_eq!(items.len(), 1);
    assert_eq!(items[0].title, "First");
}

#[test]
fn parse_rss_items_limit_zero_untitled_first() {
    let xml = "<item><link>a</link></item><item><title>T</title></item>";
    assert_eq!(parse_rss_items(xml, 0).len(), 0);
}

#[test]
fn parse_rss_items_unclosed_item_stops() {
    let xml = "<item><title>A</title></item><item><title>B</title>";
    let items = parse_rss_items(xml, 10);
    assert_eq!(items.len(), 1);
    assert_eq!(items[0].title, "A");
}

#[test]
fn parse_rss_items_empty_document() {
    assert!(parse_rss_items("", 5).is_empty());
    assert!(parse_rss_items("<rss></rss>", 5).is_empty());
}

#[test]
fn parse_rss_items_description_cut_to_200_chars() {
    let long: String = "x".repeat(250);
    let xml = format!("<item><title>T</title><description>{}</description></item>", long);
    let items = parse_rss_items(&xml, 5);
    assert_eq!(items[0].description.chars().count(), 200);
}

#[test]
fn parse_rss_items_description_cut_before_strip() {
    // The cut falls inside a tag; the unclosed tag then swallows the rest.
    let text = format!("{}<b>bold</b>", "y".repeat(198));
    let xml = format!("<item><title>T</title><description>{}</description></item>", text);
    let items = parse_rss_items(&xml, 5);
    assert_eq!(items[0].description, "y".repeat(198));
}

#[test]
fn get_rss_urls_known_regions() {
    assert_eq!(get_rss_urls("global"), vec!["https://feeds.bbci.co.uk/news/world/rss.xml"]);
    assert_eq!(get_rss_urls("world"), vec!["https://feeds.bbci.co.uk/news/world/rss.xml"]);
    assert_eq!(get_rss_urls("china"), vec!["https://www.cgtn.com/subscribe/rss/section/world.xml"]);
    assert_eq!(get_rss_urls("india"), vec!["https://feeds.feedburner.com/ndtvnews-top-stories"]);
    assert_eq!(get_rss_urls("au"), vec!["https://www.abc.net.au/news/feed/2942460/rss.xml"]);
    assert_eq!(get_rss_urls("europe"), vec!["https://rss.dw.com/rdf/rss-en-all"]);
    assert_eq!(get_rss_urls("fr"), vec!["https://www.france24.com/en/rss"]);
    assert_eq!(get_rss_urls("germany"), vec!["https://rss.dw.com/rdf/rss-en-all"]);
    assert_eq!(get_rss_urls("mideast"), vec!["https://www.aljazeera.com/xml/rss/all.xml"]);
    assert_eq!(get_rss_urls("africa"), vec!["https://www.aljazeera.com/xml/rss/all.xml"]);
    assert_eq!(get_rss_urls("uk"), vec!["https://feeds.bbci.co.uk/news/rss.xml"]);
}

#[test]
fn get_rss_urls_ignores_case() {
    assert_eq!(get_rss_urls("GLOBAL"), get_rss_urls("global"));
    assert_eq!(get_rss_urls("Middle-East"), vec!["https://www.aljazeera.com/xml/rss/all.xml"]);
}

#[test]
fn get_rss_urls_unknown_region() {
    assert!(get_rss_urls("atlantis").is_empty());
    assert!(get_rss_urls("").is_empty());
    assert!(get_rss_urls(" uk").is_empty());
}
