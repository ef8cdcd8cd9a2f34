use mcp_news::{extract_tag, strip_html};

#[test]
fn strip_html_removes_tags_and_trims() {
    assert_eq!(strip_html("  <p>Hello <b>world</b></p>  "), "Hello world");
}

#[test]
fn strip_html_plain_text_unchanged() {
    assert_eq!(strip_html("No tags here"), "No tags here");
}

#[test]
fn strip_html_unclosed_tag_drops_rest() {
    assert_eq!(strip_html("before <a href='x' after"), "before");
}

#[test]
fn strip_html_stray_close_bracket_dropped() {
    assert_eq!(strip_html("a > b"), "a  b");
}

#[test]
fn strip_html_empty() {
    assert_eq!(strip_html(""), "");
    assert_eq!(strip_html("   "), "");
}

#[test]
fn strip_html_is_idempotent_on_example() {
    let once = strip_html(" <div> x <i>y</i> </div> ");
    assert_eq!(once, "x y");
    assert_eq!(strip_html(&once), once);
}

#[test]
fn extract_tag_basic() {
    let xml = "<item><title>  Big news </title><link>http://a</link></item>";
    assert_eq!(extract_tag(xml, "title"), Some("Big news".to_string()));
    assert_eq!(extract_tag(xml, "link"), Some("http://a".to_string()));
}

#[test]
fn extract_tag_with_attributes() {
    let xml = "<guid isPermaLink=\"false\">abc</guid>";
    assert_eq!(extract_tag(xml, "guid"), Some("abc".to_string()));
}

#[test]
fn extract_tag_cdata() {
    let xml = "<title><![CDATA[ Storm <b>warning</b> ]]></title>";
    assert_eq!(extract_tag(xml, "title"), Some("Storm <b>warning</b>".to_string()));
}

#[test]
fn extract_tag_cdata_repeated_markers() {
    let xml = "<d><![CDATA[<![CDATA[x]]>]]></d>";
    assert_eq!(extract_tag(xml, "d"), Some("x".to_string()));
}

#[test]
fn extract_tag_missing_open() {
    assert_eq!(extract_tag("<a>1</a>", "title"), None);
}

#[test]
fn extract_tag_missing_close() {
    assert_eq!(extract_tag("<title>never closed", "title"), None);
}

#[test]
fn extract_tag_missing_gt() {
    assert_eq!(extract_tag("<title", "title"), None);
}

#[test]
fn extract_tag_prefix_name_matches() {
    // `<title` also starts `<titles>`; the text runs to the first `</title>`.
    let xml = "<titles>x</titles><title>y</title>";
    assert_eq!(extract_tag(xml, "title"), Some("x</titles><title>y".to_string()));
}

#[test]
fn extract_tag_empty_element() {
    assert_eq!(extract_tag("<title></title>", "title"), Some(String::new()));
}

#[test]
fn extract_tag_non_ascii() {
    let xml = "<title>Привет мир — ünïcode</title>";
    assert_eq!(extract_tag(xml, "title"), Some("Привет мир — ünïcode".to_string()));
}

#[test]
fn strip_html_trims_unicode_white_space() {
    assert_eq!(strip_html("\u{3000}\u{a0}\t x \u{2009}\u{85}"), "x");
    // U+200B is not White_Space and stays.
    assert_eq!(strip_html("\u{200b}x"), "\u{200b}x");
}

#[test]
fn extract_tag_trims_unicode_white_space() {
    assert_eq!(extract_tag("<t>\u{2028} y \u{205f}</t>", "t"), Some("y".to_string()));
}
