use mcp_news::json::{reshape_articles, ArticleSource};
use mcp_news::tools::{
    body_reply, country_news_request, fetch_reply, gnews_search_plan, gnews_top_headlines_plan,
    multi_region_document, multi_region_plan, multi_region_reply, news_sentiment_request,
    news_timeline_request, newsapi_search_plan, regional_news_document, regional_news_plan,
    regional_news_reply, search_news_request, trending_topics_request,
};
use mcp_news::{
    format_articles, format_gnews, format_newsapi, CountryNewsInput, FetchOutcome, Json,
    MultiRegionInput, NewsApiInput, Plan, RssFeedInput, SearchInput, Shape, TimelineInput,
    TrendingInput,
};
use serde_json::Value;

fn pretty_of(text: &str) -> String {
    serde_json::to_string_pretty(&serde_json::from_str::<Value>(text).unwrap()).unwrap()
}

fn s(t: &str) -> Json {
    Json::Str(t.to_string())
}

fn obj(members: Vec<(&str, Json)>) -> Json {
    Json::Object(members.into_iter().map(|(k, v)| (k.to_string(), v)).collect())
}

fn members(j: &Json) -> Vec<(String, Json)> {
    match j {
        Json::Object(m) => m.iter().map(|(k, v)| (k.clone(), copy(v))).collect(),
        _ => panic!("not an object"),
    }
}

fn copy(j: &Json) -> Json {
    mcp_news::json::copy_json(j)
}

fn text_of(j: &Json) -> String {
    match j {
        Json::Str(t) => t.clone(),
        Json::Null => "<null>".to_string(),
        _ => "<other>".to_string(),
    }
}

fn fetched(url: Plan) -> String {
    match url {
        Plan::Fetch(u) => u,
        Plan::Answer(a) => panic!("answered: {}", a),
    }
}

fn answered(p: Plan) -> String {
    match p {
        Plan::Answer(a) => a,
        Plan::Fetch(u) => panic!("fetched: {}", u),
    }
}

#[test]
fn search_news_url_default_limit() {
    let input = SearchInput { query: "climate change".to_string(), limit: None };
    assert_eq!(
        search_news_request(&input),
        "https://api.gdeltproject.org/api/v2/doc/doc?query=climate+change&mode=artlist&maxrecords=10&format=json&sort=datedesc"
    );
}

#[test]
fn search_news_url_given_limit() {
    let input = SearchInput { query: "a b  c".to_string(), limit: Some(250) };
    assert_eq!(
        search_news_request(&input),
        "https://api.gdeltproject.org/api/v2/doc/doc?query=a+b++c&mode=artlist&maxrecords=250&format=json&sort=datedesc"
    );
}

#[test]
fn search_news_url_limit_extremes() {
    let zero = SearchInput { query: "x".to_string(), limit: Some(0) };
    assert!(search_news_request(&zero).contains("&maxrecords=0&"));
    let max = SearchInput { query: "x".to_string(), limit: Some(u32::MAX) };
    assert!(search_news_request(&max).contains("&maxrecords=4294967295&"));
}

#[test]
fn country_news_url_with_and_without_topic() {
    let with = CountryNewsInput { country: "South Africa".to_string(), topic: Some("energy crisis".to_string()), limit: Some(3) };
    assert_eq!(
        country_news_request(&with),
        "https://api.gdeltproject.org/api/v2/doc/doc?query=South+Africa+energy+crisis&mode=artlist&maxrecords=3&format=json&sort=datedesc"
    );
    let without = CountryNewsInput { country: "Kenya".to_string(), topic: None, limit: None };
    assert_eq!(
        country_news_request(&without),
        "https://api.gdeltproject.org/api/v2/doc/doc?query=Kenya&mode=artlist&maxrecords=10&format=json&sort=datedesc"
    );
}

#[test]
fn trending_topics_url() {
    let none = TrendingInput { country: None };
    assert_eq!(
        trending_topics_request(&none),
        "https://api.gdeltproject.org/api/v2/doc/doc?query=world&mode=tonechart&format=json"
    );
    let some = TrendingInput { country: Some("New Zealand".to_string()) };
    assert_eq!(
        trending_topics_request(&some),
        "https://api.gdeltproject.org/api/v2/doc/doc?query=New+Zealand&mode=tonechart&format=json"
    );
}

#[test]
fn timeline_and_sentiment_urls() {
    let t = TimelineInput { query: "solar power".to_string() };
    assert_eq!(
        news_timeline_request(&t),
        "https://api.gdeltproject.org/api/v2/doc/doc?query=solar+power&mode=timelinevol&format=json"
    );
    let q = SearchInput { query: "solar power".to_string(), limit: Some(99) };
    assert_eq!(
        news_sentiment_request(&q),
        "https://api.gdeltproject.org/api/v2/doc/doc?query=solar+power&mode=tonechart&format=json"
    );
}

#[test]
fn newsapi_plan_without_key() {
    let input = NewsApiInput { query: "x".to_string(), limit: None };
    assert_eq!(answered(newsapi_search_plan(&input, &None)), "NewsAPI not configured. Set NEWSAPI_KEY env var.");
}

#[test]
fn newsapi_plan_with_key() {
    let input = NewsApiInput { query: "rust lang".to_string(), limit: None };
    assert_eq!(
        fetched(newsapi_search_plan(&input, &Some("K123".to_string()))),
        "https://newsapi.org/v2/everything?q=rust+lang&pageSize=5&sortBy=publishedAt&apiKey=K123"
    );
}

#[test]
fn gnews_plans() {
    let q = SearchInput { query: "ai chips".to_string(), limit: Some(7) };
    let d = SearchInput { query: "climate change".to_string(), limit: None };
    assert_eq!(
        fetched(gnews_search_plan(&d, &Some("k".to_string()))),
        "https://gnews.io/api/v4/search?q=climate+change&lang=en&max=10&apikey=k"
    );
    let kenya = CountryNewsInput { country: "Kenya".to_string(), topic: None, limit: None };
    assert_eq!(
        fetched(gnews_top_headlines_plan(&kenya, &Some("k".to_string()))),
        "https://gnews.io/api/v4/top-headlines?country=ke&max=10&apikey=k"
    );
    assert_eq!(answered(gnews_search_plan(&q, &None)), "GNews not configured. Set GNEWS_API_KEY environment variable.");
    assert_eq!(
        fetched(gnews_search_plan(&q, &Some("g".to_string()))),
        "https://gnews.io/api/v4/search?q=ai+chips&lang=en&max=7&apikey=g"
    );
    let c = CountryNewsInput { country: "United Kingdom".to_string(), topic: Some("ignored".to_string()), limit: None };
    assert_eq!(answered(gnews_top_headlines_plan(&c, &None)), "GNews not configured. Set GNEWS_API_KEY environment variable.");
    assert_eq!(
        fetched(gnews_top_headlines_plan(&c, &Some("g".to_string()))),
        "https://gnews.io/api/v4/top-headlines?country=gb&max=10&apikey=g"
    );
    let other = CountryNewsInput { country: "Peru".to_string(), topic: None, limit: Some(1) };
    assert_eq!(
        fetched(gnews_top_headlines_plan(&other, &Some("g".to_string()))),
        "https://gnews.io/api/v4/top-headlines?country=peru&max=1&apikey=g"
    );
}

#[test]
fn fetch_reply_errors_and_text() {
    let send = FetchOutcome::SendFailed("connection refused".to_string());
    assert_eq!(fetch_reply(send, &Shape::Raw), "Error: connection refused");
    let read = FetchOutcome::ReadFailed("body".to_string());
    assert_eq!(fetch_reply(read, &Shape::Articles(ArticleSource::Gdelt)), "Error: body");
    let not_json = FetchOutcome::Body("rate limited".to_string());
    assert_eq!(fetch_reply(not_json, &Shape::Articles(ArticleSource::NewsApi)), "rate limited");
}

#[test]
fn fetch_reply_raw_pretty_prints_document() {
    let body = "{\"timeline\":[{\"v\":1.5,\"big\":12345678901234567890,\"ok\":true,\"n\":null}],\"a\":\"x\"}";
    let answer = fetch_reply(FetchOutcome::Body(body.to_string()), &Shape::Raw);
    assert_eq!(answer, pretty_of(body));
    assert_ne!(answer, body);
}

#[test]
fn fetch_reply_raw_keeps_numbers_as_read() {
    let body = "[0.1, 1e-7, 3.141592653589793, 1.7976931348623157e308, 2.2250738585072014e-308, 0.30000000000000004, 9007199254740993, -0.0, 123456789.12345678]";
    let answer = fetch_reply(FetchOutcome::Body(body.to_string()), &Shape::Raw);
    assert_eq!(answer, pretty_of(body));
}

#[test]
fn body_reply_empty_object_gives_empty_article_list() {
    assert_eq!(body_reply("{}".to_string(), &Shape::Articles(ArticleSource::Gdelt)), "[]");
    assert_eq!(body_reply("{}".to_string(), &Shape::Raw), "{}");
    assert_eq!(body_reply("not json {".to_string(), &Shape::Raw), "not json {");
}

#[test]
fn body_reply_reshapes_gdelt_text() {
    let body = "{\"articles\":[{\"title\":\"A\",\"url\":\"https://a\",\"domain\":\"a.com\",\"seendate\":\"d\",\"language\":\"English\",\"sourcecountry\":\"Kenya\",\"extra\":1}]}";
    let answer = body_reply(body.to_string(), &Shape::Articles(ArticleSource::Gdelt));
    let v: Value = serde_json::from_str(&answer).unwrap();
    assert_eq!(v[0]["title"], "A");
    assert_eq!(v[0]["url"], "https://a");
    assert_eq!(v[0]["source"], "a.com");
    assert_eq!(v[0]["date"], "d");
    assert_eq!(v[0]["language"], "English");
    assert_eq!(v[0]["source_country"], "Kenya");
    assert_eq!(v[0].as_object().unwrap().len(), 6);
    assert_eq!(v.as_array().unwrap().len(), 1);
}

fn gdelt_doc() -> Json {
    obj(vec![(
        "articles",
        Json::Array(vec![
            obj(vec![
                ("url", s("https://a")),
                ("title", s("A")),
                ("domain", s("a.com")),
                ("seendate", s("20240101T000000Z")),
                ("language", s("English")),
                ("sourcecountry", s("Kenya")),
                ("socialimage", s("ignored")),
            ]),
            obj(vec![("title", s("B"))]),
        ]),
    )])
}

#[test]
fn format_articles_reshapes_gdelt() {
    let out = reshape_articles(&ArticleSource::Gdelt, &gdelt_doc());
    let arts = match out { Json::Array(a) => a, _ => panic!() };
    assert_eq!(arts.len(), 2);
    let first = members(&arts[0]);
    let names: Vec<&str> = first.iter().map(|(k, _)| k.as_str()).collect();
    assert_eq!(names, vec!["title", "url", "source", "date", "language", "source_country"]);
    let values: Vec<String> = first.iter().map(|(_, v)| text_of(v)).collect();
    assert_eq!(values, vec!["A", "https://a", "a.com", "20240101T000000Z", "English", "Kenya"]);
    let second: Vec<String> = members(&arts[1]).iter().map(|(_, v)| text_of(v)).collect();
    assert_eq!(second, vec!["B", "<null>", "<null>", "<null>", "<null>", "<null>"]);
}

#[test]
fn format_articles_without_article_array() {
    for doc in [Json::Null, s("x"), obj(vec![]), obj(vec![("articles", s("none"))])] {
        match reshape_articles(&ArticleSource::Gdelt, &doc) {
            Json::Array(a) => assert!(a.is_empty()),
            _ => panic!(),
        }
        assert_eq!(format_articles(&doc), "[]");
    }
}

#[test]
fn format_newsapi_reads_source_name() {
    let doc = obj(vec![(
        "articles",
        Json::Array(vec![obj(vec![
            ("title", s("T")),
            ("source", obj(vec![("id", Json::Null), ("name", s("BBC"))])),
            ("url", s("u")),
            ("publishedAt", s("2024")),
            ("description", s("d")),
        ])]),
    )]);
    let arts = match reshape_articles(&ArticleSource::NewsApi, &doc) { Json::Array(a) => a, _ => panic!() };
    let v: Value = serde_json::from_str(&format_newsapi(&doc)).unwrap();
    assert_eq!(v[0]["source"], "BBC");
    let m = members(&arts[0]);
    let names: Vec<&str> = m.iter().map(|(k, _)| k.as_str()).collect();
    assert_eq!(names, vec!["title", "source", "url", "date", "description"]);
    let values: Vec<String> = m.iter().map(|(_, v)| text_of(v)).collect();
    assert_eq!(values, vec!["T", "BBC", "u", "2024", "d"]);
}

#[test]
fn format_gnews_reads_source_name_and_image() {
    let doc = obj(vec![(
        "articles",
        Json::Array(vec![obj(vec![
            ("title", s("T")),
            ("url", s("u")),
            ("source", s("not an object")),
            ("publishedAt", s("2024")),
            ("image", s("i.png")),
        ])]),
    )]);
    let arts = match reshape_articles(&ArticleSource::GNews, &doc) { Json::Array(a) => a, _ => panic!() };
    let v: Value = serde_json::from_str(&format_gnews(&doc)).unwrap();
    assert_eq!(v[0]["image"], "i.png");
    assert_eq!(v[0]["source"], Value::Null);
    let m = members(&arts[0]);
    let names: Vec<&str> = m.iter().map(|(k, _)| k.as_str()).collect();
    assert_eq!(names, vec!["title", "url", "source", "date", "description", "image"]);
    let values: Vec<String> = m.iter().map(|(_, v)| text_of(v)).collect();
    assert_eq!(values, vec!["T", "u", "<null>", "2024", "<null>", "i.png"]);
}

#[test]
fn regional_plan_unknown_region() {
    let input = RssFeedInput { region: "Atlantis".to_string(), limit: None };
    assert_eq!(
        regional_news_plan(&input),
        Err("Unknown region 'Atlantis'. Available: global, china, india, australia, europe, middle-east, france, germany, uk".to_string())
    );
    let known = RssFeedInput { region: "UK".to_string(), limit: None };
    assert_eq!(regional_news_plan(&known), Ok(vec!["https://feeds.bbci.co.uk/news/rss.xml"]));
}

fn feed(titles: &[&str]) -> String {
    titles.iter().map(|t| format!("<item><title>{}</title><link>l-{}</link></item>", t, t)).collect()
}

#[test]
fn regional_reply_collects_and_truncates() {
    let input = RssFeedInput { region: "global".to_string(), limit: Some(3) };
    let bodies = vec![Some(feed(&["a", "b"])), None, Some(feed(&["c", "d", "e"]))];
    let out = regional_news_document(&input, &bodies);
    let arts = match out { Json::Array(a) => a, _ => panic!() };
    let titles: Vec<String> = arts.iter().map(|a| text_of(&members(a)[0].1)).collect();
    assert_eq!(titles, vec!["a", "b", "c"]);
    let m = members(&arts[0]);
    let names: Vec<&str> = m.iter().map(|(k, _)| k.as_str()).collect();
    assert_eq!(names, vec!["title", "url", "date", "description"]);
    assert_eq!(text_of(&m[1].1), "l-a");
}

#[test]
fn regional_reply_default_limit_ten() {
    let input = RssFeedInput { region: "global".to_string(), limit: None };
    let many: Vec<String> = (0..15).map(|i| i.to_string()).collect();
    let refs: Vec<&str> = many.iter().map(|s| s.as_str()).collect();
    let bodies = vec![Some(feed(&refs))];
    match regional_news_document(&input, &bodies) {
        Json::Array(a) => assert_eq!(a.len(), 10),
        _ => panic!(),
    }
}

#[test]
fn multi_region_plan_and_reply() {
    let input = MultiRegionInput {
        regions: vec!["uk".to_string(), "nowhere".to_string(), "uk".to_string()],
        limit: None,
    };
    let plan = multi_region_plan(&input);
    assert_eq!(plan, vec![vec!["https://feeds.bbci.co.uk/news/rss.xml"], vec![], vec!["https://feeds.bbci.co.uk/news/rss.xml"]]);
    let bodies = vec![vec![Some(feed(&["x1", "x2", "x3", "x4"]))], vec![], vec![Some(feed(&["y1"]))]];
    let out = multi_region_document(&input, &bodies);
    let m = members(&out);
    let names: Vec<&str> = m.iter().map(|(k, _)| k.as_str()).collect();
    assert_eq!(names, vec!["uk", "nowhere"]);
    match &m[0].1 {
        Json::Array(a) => {
            assert_eq!(a.len(), 1);
            assert_eq!(text_of(&members(&a[0])[0].1), "y1");
        }
        _ => panic!(),
    }
    match &m[1].1 {
        Json::Array(a) => assert!(a.is_empty()),
        _ => panic!(),
    }
}

#[test]
fn multi_region_reply_default_limit_three() {
    let input = MultiRegionInput { regions: vec!["europe".to_string()], limit: None };
    let bodies = vec![vec![Some(feed(&["1", "2", "3", "4", "5"])), Some(feed(&["6"]))]];
    let m = members(&multi_region_document(&input, &bodies));
    match &m[0].1 {
        Json::Array(a) => assert_eq!(a.len(), 3),
        _ => panic!(),
    }
}

#[test]
fn regional_reply_text() {
    let input = RssFeedInput { region: "uk".to_string(), limit: Some(1) };
    let bodies = vec![Some(feed(&["a", "b"]))];
    let text = regional_news_reply(&input, &bodies);
    let v: Value = serde_json::from_str(&text).unwrap();
    assert_eq!(v.as_array().unwrap().len(), 1);
    assert_eq!(v[0]["title"], "a");
    assert_eq!(v[0]["url"], "l-a");
    assert_eq!(v[0]["date"], "");
    assert_eq!(v[0]["description"], "");
    assert_eq!(text, pretty_of(&text));
}

#[test]
fn multi_region_reply_text() {
    let input = MultiRegionInput { regions: vec!["uk".to_string(), "fr".to_string()], limit: Some(2) };
    let bodies = vec![vec![Some(feed(&["a", "b", "c"]))], vec![None]];
    let text = multi_region_reply(&input, &bodies);
    let v: Value = serde_json::from_str(&text).unwrap();
    assert_eq!(v["uk"].as_array().unwrap().len(), 2);
    assert_eq!(v["fr"].as_array().unwrap().len(), 0);
}
