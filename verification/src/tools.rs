//! The decisions of the news tools: which request each tool makes for its
//! input, and what it answers for what came back.

use vstd::prelude::*;
use crate::json::{self, Json, JsonValue, ArticleSource};
use crate::regions;
use crate::rss::{self, RssItem, RssEntry};
use crate::text;

verus! {

// ---------------------------------------------------------------------------
// Tool inputs
// ---------------------------------------------------------------------------

/// Input of the keyword search tools.
pub struct SearchInput {
    /// Search query (keywords, topics, entities)
    pub query: String,
    /// Max results (default 10)
    pub limit: Option<u32>,
}

/// Input of the country news tools.
pub struct CountryNewsInput {
    /// Country name or code
    pub country: String,
    /// Optional topic filter
    pub topic: Option<String>,
    /// Max results (default 10)
    pub limit: Option<u32>,
}

/// Input of the trending topics tool.
pub struct TrendingInput {
    /// Country or region (optional, global if empty)
    pub country: Option<String>,
}

/// Input of the news timeline tool.
pub struct TimelineInput {
    /// Search query
    pub query: String,
}

/// Input of the NewsAPI search tool.
pub struct NewsApiInput {
    /// Search query
    pub query: String,
    /// Max results (default 5)
    pub limit: Option<u32>,
}

/// Input of the regional RSS news tool.
pub struct RssFeedInput {
    /// Region: global, china, india, australia, europe, middle-east, france, germany, uk
    pub region: String,
    /// Max articles (default 10)
    pub limit: Option<u32>,
}

/// Input of the multi-region RSS news tool.
pub struct MultiRegionInput {
    /// Regions to fetch from
    pub regions: Vec<String>,
    /// Max articles per region (default 3)
    pub limit: Option<u32>,
}

// ---------------------------------------------------------------------------
// Requests
// ---------------------------------------------------------------------------

/// The limit asked for, or the tool's default.
pub open spec fn limit_or(limit: Option<u32>, default: u32) -> u32 {
    match limit {
        Some(l) => l,
        None => default,
    }
}

/// The text of an optional string, or `default`.
pub open spec fn text_or(s: Option<String>, default: Seq<char>) -> Seq<char> {
    match s {
        Some(t) => t@,
        None => default,
    }
}

/// A GDELT article-list request: newest first, at most `limit` articles.
pub open spec fn gdelt_articles_url(query: Seq<char>, limit: u32) -> Seq<char> {
    "https://api.gdeltproject.org/api/v2/doc/doc?query="@ + text::plus_for_space(query)
        + "&mode=artlist&maxrecords="@ + text::decimal(limit as nat) + "&format=json&sort=datedesc"@
}

/// A GDELT request for the tone chart of a query.
pub open spec fn gdelt_tone_url(query: Seq<char>) -> Seq<char> {
    "https://api.gdeltproject.org/api/v2/doc/doc?query="@ + text::plus_for_space(query)
        + "&mode=tonechart&format=json"@
}

/// A GDELT request for the volume timeline of a query.
pub open spec fn gdelt_timeline_url(query: Seq<char>) -> Seq<char> {
    "https://api.gdeltproject.org/api/v2/doc/doc?query="@ + text::plus_for_space(query)
        + "&mode=timelinevol&format=json"@
}

/// A NewsAPI search request, newest first.
pub open spec fn newsapi_url(query: Seq<char>, limit: u32, key: Seq<char>) -> Seq<char> {
    "https://newsapi.org/v2/everything?q="@ + text::plus_for_space(query) + "&pageSize="@
        + text::decimal(limit as nat) + "&sortBy=publishedAt&apiKey="@ + key
}

/// A GNews search request in English.
pub open spec fn gnews_search_url(query: Seq<char>, limit: u32, key: Seq<char>) -> Seq<char> {
    "https://gnews.io/api/v4/search?q="@ + text::plus_for_space(query) + "&lang=en&max="@
        + text::decimal(limit as nat) + "&apikey="@ + key
}

/// A GNews request for the top headlines of a country.
pub open spec fn gnews_headlines_url(code: Seq<char>, limit: u32, key: Seq<char>) -> Seq<char> {
    "https://gnews.io/api/v4/top-headlines?country="@ + code + "&max="@ + text::decimal(
        limit as nat,
    ) + "&apikey="@ + key
}

/// The query of the country news tool: the country, followed by the topic
/// after a space where one is given.
pub open spec fn country_query(input: CountryNewsInput) -> Seq<char> {
    match input.topic {
        Some(t) => input.country@ + " "@ + t@,
        None => input.country@,
    }
}

/// The answer of NewsAPI search when no key is configured.
pub open spec fn newsapi_unconfigured() -> Seq<char> {
    "NewsAPI not configured. Set NEWSAPI_KEY env var."@
}

/// The answer of the GNews tools when no key is configured.
pub open spec fn gnews_unconfigured() -> Seq<char> {
    "GNews not configured. Set GNEWS_API_KEY environment variable."@
}

/// A request carries the limit it is made with: the decimal text of the
/// limit stands in the URL as the value of the service's limit parameter,
/// between that parameter's name and the next `&`.
pub proof fn lemma_urls_carry_limit(query: Seq<char>, code: Seq<char>, key: Seq<char>, n: u32)
    ensures
        text::contains(gdelt_articles_url(query, n), "&maxrecords="@ + text::decimal(n as nat) + "&"@),
        text::contains(newsapi_url(query, n, key), "&pageSize="@ + text::decimal(n as nat) + "&"@),
        text::contains(gnews_search_url(query, n, key), "&max="@ + text::decimal(n as nat) + "&"@),
        text::contains(gnews_headlines_url(code, n, key), "&max="@ + text::decimal(n as nat) + "&"@),
{
    reveal_strlit("&mode=artlist&maxrecords=");
    reveal_strlit("&mode=artlist");
    reveal_strlit("&maxrecords=");
    reveal_strlit("&format=json&sort=datedesc");
    reveal_strlit("format=json&sort=datedesc");
    reveal_strlit("&");
    reveal_strlit("&pageSize=");
    reveal_strlit("&sortBy=publishedAt&apiKey=");
    reveal_strlit("sortBy=publishedAt&apiKey=");
    reveal_strlit("&lang=en&max=");
    reveal_strlit("&lang=en");
    reveal_strlit("&max=");
    reveal_strlit("&apikey=");
    reveal_strlit("apikey=");
    let d = text::decimal(n as nat);
    let g = "https://api.gdeltproject.org/api/v2/doc/doc?query="@ + text::plus_for_space(query)
        + "&mode=artlist"@;
    let m1 = "&maxrecords="@ + d + "&"@;
    assert(gdelt_articles_url(query, n) =~= g + m1 + "format=json&sort=datedesc"@);
    text::lemma_contains_middle(g, m1, "format=json&sort=datedesc"@);
    let na = "https://newsapi.org/v2/everything?q="@ + text::plus_for_space(query);
    let m2 = "&pageSize="@ + d + "&"@;
    assert(newsapi_url(query, n, key) =~= na + m2 + ("sortBy=publishedAt&apiKey="@ + key));
    text::lemma_contains_middle(na, m2, "sortBy=publishedAt&apiKey="@ + key);
    let m3 = "&max="@ + d + "&"@;
    let sa = "https://gnews.io/api/v4/search?q="@ + text::plus_for_space(query) + "&lang=en"@;
    assert(gnews_search_url(query, n, key) =~= sa + m3 + ("apikey="@ + key));
    text::lemma_contains_middle(sa, m3, "apikey="@ + key);
    let ha = "https://gnews.io/api/v4/top-headlines?country="@ + code;
    assert(gnews_headlines_url(code, n, key) =~= ha + m3 + ("apikey="@ + key));
    text::lemma_contains_middle(ha, m3, "apikey="@ + key);
}

/// Requests made with different limits differ, for every service that
/// takes a limit.
pub proof fn lemma_urls_differ_by_limit(
    query: Seq<char>,
    code: Seq<char>,
    key: Seq<char>,
    n1: u32,
    n2: u32,
)
    requires
        n1 != n2,
    ensures
        gdelt_articles_url(query, n1) != gdelt_articles_url(query, n2),
        newsapi_url(query, n1, key) != newsapi_url(query, n2, key),
        gnews_search_url(query, n1, key) != gnews_search_url(query, n2, key),
        gnews_headlines_url(code, n1, key) != gnews_headlines_url(code, n2, key),
{
    let d1 = text::decimal(n1 as nat);
    let d2 = text::decimal(n2 as nat);
    if d1 == d2 {
        text::lemma_decimal_injective(n1 as nat, n2 as nat);
    }
    let ga = "https://api.gdeltproject.org/api/v2/doc/doc?query="@ + text::plus_for_space(query)
        + "&mode=artlist&maxrecords="@;
    let gb = "&format=json&sort=datedesc"@;
    assert(gdelt_articles_url(query, n1) =~= ga + d1 + gb);
    assert(gdelt_articles_url(query, n2) =~= ga + d2 + gb);
    if gdelt_articles_url(query, n1) == gdelt_articles_url(query, n2) {
        text::lemma_middle_cancel(ga, d1, d2, gb);
    }
    let na = "https://newsapi.org/v2/everything?q="@ + text::plus_for_space(query) + "&pageSize="@;
    let nb = "&sortBy=publishedAt&apiKey="@ + key;
    assert(newsapi_url(query, n1, key) =~= na + d1 + nb);
    assert(newsapi_url(query, n2, key) =~= na + d2 + nb);
    if newsapi_url(query, n1, key) == newsapi_url(query, n2, key) {
        text::lemma_middle_cancel(na, d1, d2, nb);
    }
    let sa = "https://gnews.io/api/v4/search?q="@ + text::plus_for_space(query) + "&lang=en&max="@;
    let sb = "&apikey="@ + key;
    assert(gnews_search_url(query, n1, key) =~= sa + d1 + sb);
    assert(gnews_search_url(query, n2, key) =~= sa + d2 + sb);
    if gnews_search_url(query, n1, key) == gnews_search_url(query, n2, key) {
        text::lemma_middle_cancel(sa, d1, d2, sb);
    }
    let ha = "https://gnews.io/api/v4/top-headlines?country="@ + code + "&max="@;
    assert(gnews_headlines_url(code, n1, key) =~= ha + d1 + sb);
    assert(gnews_headlines_url(code, n2, key) =~= ha + d2 + sb);
    if gnews_headlines_url(code, n1, key) == gnews_headlines_url(code, n2, key) {
        text::lemma_middle_cancel(ha, d1, d2, sb);
    }
}

/// What a tool does first: fetch a URL, or answer at once.
pub enum Plan {
    Fetch(String),
    Answer(String),
}

/// The plan fetches `url`.
pub open spec fn plan_fetches(p: Plan, url: Seq<char>) -> bool {
    p matches Plan::Fetch(u) && u@ == url
}

/// The plan answers with `text`.
pub open spec fn plan_answers(p: Plan, text: Seq<char>) -> bool {
    p matches Plan::Answer(a) && a@ == text
}

fn push_str(out: &mut Vec<char>, s: &str)
    ensures
        final(out)@ == old(out)@ + s@,
{
    let cs = text::chars_of(s);
    text::push_all(out, &cs);
}

fn push_plus(out: &mut Vec<char>, s: &str)
    ensures
        final(out)@ == old(out)@ + text::plus_for_space(s@),
{
    let cs = text::plus_for_space_exec(s);
    text::push_all(out, &cs);
}

fn limit_or_exec(limit: Option<u32>, default: u32) -> (r: u32)
    ensures
        r == limit_or(limit, default),
{
    match limit {
        Some(l) => l,
        None => default,
    }
}

fn gdelt_articles_exec(query: &str, limit: u32) -> (url: String)
    ensures
        url@ == gdelt_articles_url(query@, limit),
{
    let mut u: Vec<char> = Vec::new();
    push_str(&mut u, "https://api.gdeltproject.org/api/v2/doc/doc?query=");
    push_plus(&mut u, query);
    push_str(&mut u, "&mode=artlist&maxrecords=");
    text::push_decimal(&mut u, limit);
    push_str(&mut u, "&format=json&sort=datedesc");
    assert(u@ =~= gdelt_articles_url(query@, limit));
    text::string_of(u.as_slice())
}

fn gdelt_tone_exec(query: &str) -> (url: String)
    ensures
        url@ == gdelt_tone_url(query@),
{
    let mut u: Vec<char> = Vec::new();
    push_str(&mut u, "https://api.gdeltproject.org/api/v2/doc/doc?query=");
    push_plus(&mut u, query);
    push_str(&mut u, "&mode=tonechart&format=json");
    assert(u@ =~= gdelt_tone_url(query@));
    text::string_of(u.as_slice())
}

/// The request of the article search tool.
pub fn search_news_request(input: &SearchInput) -> (url: String)
    ensures
        url@ == gdelt_articles_url(input.query@, limit_or(input.limit, 10)),
{
    gdelt_articles_exec(input.query.as_str(), limit_or_exec(input.limit, 10))
}

/// The request of the country news tool.
pub fn country_news_request(input: &CountryNewsInput) -> (url: String)
    ensures
        url@ == gdelt_articles_url(country_query(*input), limit_or(input.limit, 10)),
{
    let query = match &input.topic {
        Some(t) => {
            let mut q = input.country.clone();
            q.append(" ");
            q.append(t.as_str());
            q
        },
        None => input.country.clone(),
    };
    gdelt_articles_exec(query.as_str(), limit_or_exec(input.limit, 10))
}

/// The request of the trending topics tool: the tone chart of the country,
/// or of "world" where none is given.
pub fn trending_topics_request(input: &TrendingInput) -> (url: String)
    ensures
        url@ == gdelt_tone_url(text_or(input.country, "world"@)),
{
    match &input.country {
        Some(c) => gdelt_tone_exec(c.as_str()),
        None => gdelt_tone_exec("world"),
    }
}

/// The request of the news timeline tool.
pub fn news_timeline_request(input: &TimelineInput) -> (url: String)
    ensures
        url@ == gdelt_timeline_url(input.query@),
{
    let mut u: Vec<char> = Vec::new();
    push_str(&mut u, "https://api.gdeltproject.org/api/v2/doc/doc?query=");
    push_plus(&mut u, input.query.as_str());
    push_str(&mut u, "&mode=timelinevol&format=json");
    assert(u@ =~= gdelt_timeline_url(input.query@));
    text::string_of(u.as_slice())
}

/// The request of the news sentiment tool: the tone chart of the query.
pub fn news_sentiment_request(input: &SearchInput) -> (url: String)
    ensures
        url@ == gdelt_tone_url(input.query@),
{
    gdelt_tone_exec(input.query.as_str())
}

/// The plan of the NewsAPI search tool: without a key it answers that
/// NewsAPI is not configured; with one it searches, 5 articles by default.
pub fn newsapi_search_plan(input: &NewsApiInput, key: &Option<String>) -> (p: Plan)
    ensures
        match key {
            Some(k) => plan_fetches(p, newsapi_url(input.query@, limit_or(input.limit, 5), k@)),
            None => plan_answers(p, newsapi_unconfigured()),
        },
        key is Some ==> (p matches Plan::Fetch(u) && text::contains(
            u@,
            "&pageSize="@ + text::decimal(limit_or(input.limit, 5) as nat) + "&"@,
        )),
{
    match key {
        Some(k) => {
            let mut u: Vec<char> = Vec::new();
            push_str(&mut u, "https://newsapi.org/v2/everything?q=");
            push_plus(&mut u, input.query.as_str());
            push_str(&mut u, "&pageSize=");
            text::push_decimal(&mut u, limit_or_exec(input.limit, 5));
            push_str(&mut u, "&sortBy=publishedAt&apiKey=");
            push_str(&mut u, k.as_str());
            assert(u@ =~= newsapi_url(input.query@, limit_or(input.limit, 5), k@));
            proof {
                lemma_urls_carry_limit(input.query@, input.query@, k@, limit_or(input.limit, 5));
            }
            Plan::Fetch(text::string_of(u.as_slice()))
        },
        None => Plan::Answer(String::from_str("NewsAPI not configured. Set NEWSAPI_KEY env var.")),
    }
}

/// The plan of the GNews search tool: without a key it answers that GNews is
/// not configured; with one it searches, 10 articles by default.
pub fn gnews_search_plan(input: &SearchInput, key: &Option<String>) -> (p: Plan)
    ensures
        match key {
            Some(k) => plan_fetches(p, gnews_search_url(input.query@, limit_or(input.limit, 10), k@)),
            None => plan_answers(p, gnews_unconfigured()),
        },
        key is Some ==> (p matches Plan::Fetch(u) && text::contains(
            u@,
            "&max="@ + text::decimal(limit_or(input.limit, 10) as nat) + "&"@,
        )),
{
    match key {
        Some(k) => {
            let mut u: Vec<char> = Vec::new();
            push_str(&mut u, "https://gnews.io/api/v4/search?q=");
            push_plus(&mut u, input.query.as_str());
            push_str(&mut u, "&lang=en&max=");
            text::push_decimal(&mut u, limit_or_exec(input.limit, 10));
            push_str(&mut u, "&apikey=");
            push_str(&mut u, k.as_str());
            assert(u@ =~= gnews_search_url(input.query@, limit_or(input.limit, 10), k@));
            proof {
                lemma_urls_carry_limit(input.query@, input.query@, k@, limit_or(input.limit, 10));
            }
            Plan::Fetch(text::string_of(u.as_slice()))
        },
        None => Plan::Answer(
            String::from_str("GNews not configured. Set GNEWS_API_KEY environment variable."),
        ),
    }
}

/// The plan of the GNews top-headlines tool: without a key it answers that
/// GNews is not configured; with one it asks for the headlines of the
/// country's GNews code, 10 by default.
pub fn gnews_top_headlines_plan(input: &CountryNewsInput, key: &Option<String>) -> (p: Plan)
    ensures
        match key {
            Some(k) => plan_fetches(
                p,
                gnews_headlines_url(
                    regions::gnews_code(text::lowercase(input.country@)),
                    limit_or(input.limit, 10),
                    k@,
                ),
            ),
            None => plan_answers(p, gnews_unconfigured()),
        },
{
    match key {
        Some(k) => {
            let code = regions::country_to_gnews_code(input.country.as_str());
            let mut u: Vec<char> = Vec::new();
            push_str(&mut u, "https://gnews.io/api/v4/top-headlines?country=");
            push_str(&mut u, code.as_str());
            push_str(&mut u, "&max=");
            text::push_decimal(&mut u, limit_or_exec(input.limit, 10));
            push_str(&mut u, "&apikey=");
            push_str(&mut u, k.as_str());
            assert(u@ =~= gnews_headlines_url(
                regions::gnews_code(text::lowercase(input.country@)),
                limit_or(input.limit, 10),
                k@,
            ));
            Plan::Fetch(text::string_of(u.as_slice()))
        },
        None => Plan::Answer(
            String::from_str("GNews not configured. Set GNEWS_API_KEY environment variable."),
        ),
    }
}


// ---------------------------------------------------------------------------
// Answers
// ---------------------------------------------------------------------------

/// What came back from fetching a URL.
pub enum FetchOutcome {
    /// The request could not be sent; the error's text.
    SendFailed(String),
    /// The response could not be read; the error's text.
    ReadFailed(String),
    /// The response body.
    Body(String),
}

/// How a tool turns a JSON response into its answer.
pub enum Shape {
    /// The document as it came.
    Raw,
    /// The document's article list, reshaped for the service.
    Articles(ArticleSource),
}

/// The document a tool answers with, for a JSON response `data`.
pub open spec fn shaped(data: JsonValue, shape: Shape) -> JsonValue {
    match shape {
        Shape::Raw => data,
        Shape::Articles(source) => json::reshaped_articles(source, data),
    }
}

/// The answer to a response body: a body that is not JSON as it is, and a
/// JSON body in the tool's shape, pretty-printed.
pub open spec fn body_answer(text: Seq<char>, shape: Shape) -> Seq<char> {
    match json::parsed_json(text) {
        None => text,
        Some(data) => json::pretty_json(shaped(data, shape)),
    }
}

/// The answer to what came back: an error's text after "Error: ", else the
/// answer to the body.
pub open spec fn fetch_answer(outcome: FetchOutcome, shape: Shape) -> Seq<char> {
    match outcome {
        FetchOutcome::SendFailed(e) => "Error: "@ + e@,
        FetchOutcome::ReadFailed(e) => "Error: "@ + e@,
        FetchOutcome::Body(text) => body_answer(text@, shape),
    }
}

fn error_text(e: &String) -> (r: String)
    ensures
        r@ == "Error: "@ + e@,
{
    let mut r = String::from_str("Error: ");
    r.append(e.as_str());
    r
}

/// A tool's answer to a response body: the body itself where it is not
/// JSON, else the document it holds in the tool's shape, pretty-printed.
pub fn body_reply(text: String, shape: &Shape) -> (r: String)
    ensures
        r@ == body_answer(text@, *shape),
{
    match json::parse_json(text.as_str()) {
        None => text,
        Some(data) => match shape {
            Shape::Raw => json::to_pretty(&data),
            Shape::Articles(source) => json::to_pretty(&json::reshape_articles(source, &data)),
        },
    }
}

/// A tool's answer to what came back from its request.
pub fn fetch_reply(outcome: FetchOutcome, shape: &Shape) -> (r: String)
    ensures
        r@ == fetch_answer(outcome, *shape),
{
    match outcome {
        FetchOutcome::SendFailed(e) => error_text(&e),
        FetchOutcome::ReadFailed(e) => error_text(&e),
        FetchOutcome::Body(text) => body_reply(text, shape),
    }
}

// ---------------------------------------------------------------------------
// RSS tools
// ---------------------------------------------------------------------------

/// The answer for a region without feeds.
pub open spec fn unknown_region(region: Seq<char>) -> Seq<char> {
    "Unknown region '"@ + region
        + "'. Available: global, china, india, australia, europe, middle-east, france, germany, uk"@
}

/// The plan of the regional news tool: the region's feeds, or the answer
/// that the region is unknown.
pub fn regional_news_plan(input: &RssFeedInput) -> (r: Result<Vec<&'static str>, String>)
    ensures
        match r {
            Ok(urls) => regions::texts(urls@) == regions::feeds_for(text::lowercase(input.region@))
                && urls.len() > 0,
            Err(answer) => regions::feeds_for(text::lowercase(input.region@)).len() == 0 && answer@
                == unknown_region(input.region@),
        },
{
    let urls = regions::get_rss_urls(input.region.as_str());
    if urls.len() == 0 {
        let mut a = String::from_str("Unknown region '");
        a.append(input.region.as_str());
        a.append(
            "'. Available: global, china, india, australia, europe, middle-east, france, germany, uk",
        );
        Err(a)
    } else {
        Ok(urls)
    }
}

/// The entries read from the feeds' bodies, in order, each feed read up to
/// `limit` entries; a feed that could not be fetched gives none.
pub open spec fn feed_entries(bodies: Seq<Option<String>>, limit: nat) -> Seq<RssEntry>
    decreases bodies.len(),
{
    if bodies.len() == 0 {
        Seq::empty()
    } else {
        feed_entries(bodies.drop_last(), limit) + match bodies.last() {
            Some(t) => rss::rss_entries(t@, limit),
            None => Seq::empty(),
        }
    }
}

/// The first `n` elements of `s` (all of them if there are fewer).
pub open spec fn first_n<A>(s: Seq<A>, n: nat) -> Seq<A> {
    if s.len() <= n {
        s
    } else {
        s.take(n as int)
    }
}

/// The entries of a region: those of its feeds, cut to `limit`.
pub open spec fn region_entries(bodies: Seq<Option<String>>, limit: nat) -> Seq<RssEntry> {
    first_n(feed_entries(bodies, limit), limit)
}

/// An entry as it is answered: an object with its title, url, date and
/// description.
pub open spec fn entry_value(e: RssEntry) -> JsonValue {
    json::object(
        seq!["title"@, "url"@, "date"@, "description"@],
        seq![
            JsonValue::Str(e.title),
            JsonValue::Str(e.url),
            JsonValue::Str(e.date),
            JsonValue::Str(e.description),
        ],
    )
}

/// A list of entries as it is answered: the array of their objects.
pub open spec fn entries_value(es: Seq<RssEntry>) -> JsonValue {
    JsonValue::Array(es.map_values(|e: RssEntry| entry_value(e)))
}

/// The object of an entry holds each of the entry's fields under its own
/// name, and nothing else: `title`, `url`, `date` and `description`.
pub proof fn lemma_entry_members(e: RssEntry)
    ensures
        json::get(entry_value(e), "title"@) == JsonValue::Str(e.title),
        json::get(entry_value(e), "url"@) == JsonValue::Str(e.url),
        json::get(entry_value(e), "date"@) == JsonValue::Str(e.date),
        json::get(entry_value(e), "description"@) == JsonValue::Str(e.description),
        entry_value(e) matches JsonValue::Object(ms) && ms.len() == 4,
{
    json::lemma_member_names();
    let names = seq!["title"@, "url"@, "date"@, "description"@];
    let values = seq![
        JsonValue::Str(e.title),
        JsonValue::Str(e.url),
        JsonValue::Str(e.date),
        JsonValue::Str(e.description),
    ];
    assert(entry_value(e) == json::object(names, values));
    json::lemma_object_get(names, values, 0);
    json::lemma_object_get(names, values, 1);
    json::lemma_object_get(names, values, 2);
    json::lemma_object_get(names, values, 3);
}

/// The array of a list of entries holds, at each position, the object of
/// the entry there: its `date` is the entry's date and its `description`
/// the entry's description.
pub proof fn lemma_entries_members(es: Seq<RssEntry>)
    ensures
        entries_value(es) matches JsonValue::Array(xs) && xs.len() == es.len() && forall|i: int|
            0 <= i < es.len() ==> {
                &&& json::get(#[trigger] xs[i], "title"@) == JsonValue::Str(es[i].title)
                &&& json::get(xs[i], "url"@) == JsonValue::Str(es[i].url)
                &&& json::get(xs[i], "date"@) == JsonValue::Str(es[i].date)
                &&& json::get(xs[i], "description"@) == JsonValue::Str(es[i].description)
            },
{
    let xs = es.map_values(|e: RssEntry| entry_value(e));
    assert forall|i: int| 0 <= i < es.len() implies {
        &&& json::get(#[trigger] xs[i], "title"@) == JsonValue::Str(es[i].title)
        &&& json::get(xs[i], "url"@) == JsonValue::Str(es[i].url)
        &&& json::get(xs[i], "date"@) == JsonValue::Str(es[i].date)
        &&& json::get(xs[i], "description"@) == JsonValue::Str(es[i].description)
    } by {
        lemma_entry_members(es[i]);
    }
}

fn str_member(out: &mut Vec<(String, Json)>, name: &str, value: &String)
    ensures
        json::members_of(final(out)@) == json::members_of(old(out)@).push(
            (name@, JsonValue::Str(value@)),
        ),
{
    let m = (String::from_str(name), Json::Str(value.clone()));
    proof {
        json::lemma_members_of_push(out@, m);
    }
    out.push(m);
}

/// The JSON object of an item.
fn item_json(item: &RssItem) -> (r: Json)
    ensures
        r@ == entry_value(item@),
{
    let mut out: Vec<(String, Json)> = Vec::new();
    str_member(&mut out, "title", &item.title);
    str_member(&mut out, "url", &item.url);
    str_member(&mut out, "date", &item.date);
    str_member(&mut out, "description", &item.description);
    assert(json::members_of(Seq::<(String, Json)>::empty()) =~= Seq::<(Seq<char>, JsonValue)>::empty());
    let r = Json::Object(out);
    assert(json::members_of(out@) =~= match entry_value(item@) {
        JsonValue::Object(m) => m,
        _ => Seq::empty(),
    });
    r
}

/// The JSON array of a list of items.
pub fn items_json(items: &Vec<RssItem>) -> (r: Json)
    ensures
        r@ == entries_value(rss::entries(items@)),
{
    let mut out: Vec<Json> = Vec::new();
    let mut i: usize = 0;
    let ghost es = rss::entries(items@);
    while i < items.len()
        invariant
            i <= items.len(),
            es == rss::entries(items@),
            json::values_of(out@) == es.take(i as int).map_values(|e: RssEntry| entry_value(e)),
        decreases items.len() - i,
    {
        let c = item_json(&items[i]);
        proof {
            assert(out@.push(c).drop_last() =~= out@);
            assert(es[i as int] == items@[i as int]@);
            assert(es.take(i + 1).map_values(|e: RssEntry| entry_value(e)) =~= es.take(
                i as int,
            ).map_values(|e: RssEntry| entry_value(e)).push(entry_value(es[i as int])));
        }
        out.push(c);
        i = i + 1;
    }
    assert(es.take(items.len() as int) =~= es);
    Json::Array(out)
}

/// The items read from the bodies of a region's feeds, cut to `limit`.
fn region_items(bodies: &Vec<Option<String>>, limit: usize) -> (items: Vec<RssItem>)
    ensures
        rss::entries(items@) == region_entries(bodies@, limit as nat),
{
    let mut items: Vec<RssItem> = Vec::new();
    let mut i: usize = 0;
    assert(rss::entries(items@) =~= Seq::<RssEntry>::empty());
    while i < bodies.len()
        invariant
            i <= bodies.len(),
            rss::entries(items@) == feed_entries(bodies@.take(i as int), limit as nat),
        decreases bodies.len() - i,
    {
        let ghost before = items@;
        match &bodies[i] {
            Some(t) => {
                let mut found = rss::parse_rss_items(t.as_str(), limit);
                let ghost f = found@;
                items.append(&mut found);
                assert(rss::entries(items@) =~= rss::entries(before) + rss::entries(f));
            },
            None => {},
        }
        assert(bodies@.take(i + 1).drop_last() =~= bodies@.take(i as int));
        i = i + 1;
    }
    assert(bodies@.take(bodies.len() as int) =~= bodies@);
    let ghost all = items@;
    items.truncate(limit);
    assert(rss::entries(items@) =~= first_n(rss::entries(all), limit as nat));
    items
}

/// The document of the regional news tool for what came back from its
/// feeds (`None` for a feed that could not be fetched or read): the array of
/// the items of all feeds in order, at most `limit` of them (10 by default).
pub fn regional_news_document(input: &RssFeedInput, bodies: &Vec<Option<String>>) -> (r: Json)
    ensures
        r@ == entries_value(region_entries(bodies@, limit_or(input.limit, 10) as nat)),
        r@ matches JsonValue::Array(xs) && xs.len() <= limit_or(input.limit, 10),
        r@ matches JsonValue::Array(xs) && forall|i: int|
            0 <= i < xs.len() ==> {
                let e = region_entries(bodies@, limit_or(input.limit, 10) as nat)[i];
                &&& json::get(#[trigger] xs[i], "title"@) == JsonValue::Str(e.title)
                &&& json::get(xs[i], "url"@) == JsonValue::Str(e.url)
                &&& json::get(xs[i], "date"@) == JsonValue::Str(e.date)
                &&& json::get(xs[i], "description"@) == JsonValue::Str(e.description)
            },
{
    let limit = limit_or_exec(input.limit, 10) as usize;
    let items = region_items(bodies, limit);
    proof {
        lemma_entries_members(region_entries(bodies@, limit as nat));
    }
    items_json(&items)
}

/// The answer of the regional news tool: its document, pretty-printed.
pub fn regional_news_reply(input: &RssFeedInput, bodies: &Vec<Option<String>>) -> (r: String)
    ensures
        r@ == json::pretty_json(
            entries_value(region_entries(bodies@, limit_or(input.limit, 10) as nat)),
        ),
{
    json::to_pretty(&regional_news_document(input, bodies))
}

/// The feeds of each region asked for, in order.
pub fn multi_region_plan(input: &MultiRegionInput) -> (r: Vec<Vec<&'static str>>)
    ensures
        r.len() == input.regions.len(),
        forall|i: int|
            0 <= i < r.len() ==> regions::texts(#[trigger] r@[i]@) == regions::feeds_for(
                text::lowercase(input.regions@[i]@),
            ),
{
    let mut r: Vec<Vec<&'static str>> = Vec::new();
    let mut i: usize = 0;
    while i < input.regions.len()
        invariant
            i <= input.regions.len(),
            r.len() == i,
            forall|k: int|
                0 <= k < i ==> regions::texts(#[trigger] r@[k]@) == regions::feeds_for(
                    text::lowercase(input.regions@[k]@),
                ),
        decreases input.regions.len() - i,
    {
        r.push(regions::get_rss_urls(input.regions[i].as_str()));
        i = i + 1;
    }
    r
}

/// The position of the first member named `key`.
pub open spec fn first_index(ms: Seq<(Seq<char>, JsonValue)>, key: Seq<char>) -> Option<int>
    decreases ms.len(),
{
    if ms.len() == 0 {
        None
    } else if ms[0].0 == key {
        Some(0)
    } else {
        match first_index(ms.drop_first(), key) {
            Some(i) => Some(i + 1),
            None => None,
        }
    }
}

/// The members with `key` set to `value`, as inserting into a serde_json
/// object does: an existing member of that name gets the new value, else a
/// member is added. (In which order serde_json writes the members is its
/// own affair.)
pub open spec fn with_member(ms: Seq<(Seq<char>, JsonValue)>, key: Seq<char>, value: JsonValue) -> Seq<
    (Seq<char>, JsonValue),
> {
    match first_index(ms, key) {
        Some(i) => ms.update(i, (key, value)),
        None => ms.push((key, value)),
    }
}

/// The members of the multi-region answer: for each region in order, its
/// entries (at most `limit`) under its name; a region named twice keeps its
/// first place and its last entries.
pub open spec fn region_members(
    names: Seq<String>,
    bodies: Seq<Vec<Option<String>>>,
    limit: nat,
) -> Seq<(Seq<char>, JsonValue)>
    decreases names.len(),
{
    if names.len() == 0 || bodies.len() == 0 {
        Seq::empty()
    } else {
        with_member(
            region_members(names.drop_last(), bodies.drop_last(), limit),
            names.last()@,
            entries_value(region_entries(bodies.last()@, limit)),
        )
    }
}

proof fn lemma_first_index(ms: Seq<(Seq<char>, JsonValue)>, key: Seq<char>, i: int)
    requires
        0 <= i <= ms.len(),
        forall|k: int| 0 <= k < i ==> #[trigger] ms[k].0 != key,
    ensures
        i < ms.len() && ms[i].0 == key ==> first_index(ms, key) == Some(i),
        i == ms.len() ==> first_index(ms, key) is None,
    decreases i,
{
    if i > 0 {
        let t = ms.drop_first();
        assert forall|k: int| 0 <= k < i - 1 implies #[trigger] t[k].0 != key by {
            assert(t[k] == ms[k + 1]);
        }
        lemma_first_index(t, key, i - 1);
    }
}

/// The multi-region answer has a member for every region asked for, and
/// each member holds an array of at most `limit` items.
pub proof fn lemma_region_members(
    names: Seq<String>,
    bodies: Seq<Vec<Option<String>>>,
    limit: nat,
)
    requires
        names.len() == bodies.len(),
    ensures
        forall|i: int|
            0 <= i < region_members(names, bodies, limit).len() ==> ((#[trigger] region_members(
                names,
                bodies,
                limit,
            )[i]).1 matches JsonValue::Array(xs) && xs.len() <= limit),
        forall|j: int|
            0 <= j < names.len() ==> exists|i: int|
                0 <= i < region_members(names, bodies, limit).len() && #[trigger] region_members(
                    names,
                    bodies,
                    limit,
                )[i].0 == (#[trigger] names[j])@,
    decreases names.len(),
{
    if names.len() > 0 {
        let prev_names = names.drop_last();
        let prev_bodies = bodies.drop_last();
        lemma_region_members(prev_names, prev_bodies, limit);
        let prev = region_members(prev_names, prev_bodies, limit);
        let key = names.last()@;
        let value = entries_value(region_entries(bodies.last()@, limit));
        let ms = region_members(names, bodies, limit);
        assert(ms == with_member(prev, key, value));
        lemma_first_index_found(prev, key);
        assert forall|j: int| 0 <= j < names.len() implies exists|i: int|
            0 <= i < ms.len() && #[trigger] ms[i].0 == (#[trigger] names[j])@ by {
            if j == names.len() - 1 {
                match first_index(prev, key) {
                    Some(k) => {
                        assert(ms[k].0 == key);
                    },
                    None => {
                        assert(ms[prev.len() as int].0 == key);
                    },
                }
            } else {
                assert(names[j] == prev_names[j]);
                let i = choose|i: int| 0 <= i < prev.len() && #[trigger] prev[i].0 == prev_names[j]@;
                match first_index(prev, key) {
                    Some(k) => {
                        assert(ms[i].0 == prev[i].0);
                    },
                    None => {
                        assert(ms[i] == prev[i]);
                    },
                }
            }
        }
    }
}

proof fn lemma_first_index_found(ms: Seq<(Seq<char>, JsonValue)>, key: Seq<char>)
    ensures
        first_index(ms, key) matches Some(i) ==> 0 <= i < ms.len() && ms[i].0 == key,
    decreases ms.len(),
{
    if ms.len() > 0 && ms[0].0 != key {
        lemma_first_index_found(ms.drop_first(), key);
    }
}

/// Sets the member `key` of an object under construction, as a JSON
/// object's insert does.
fn insert_member(out: &mut Vec<(String, Json)>, key: String, value: Json)
    ensures
        json::members_of(final(out)@) == with_member(json::members_of(old(out)@), key@, value@),
{
    proof {
        json::lemma_members_of(out@);
    }
    let ghost ms = json::members_of(out@);
    let mut i: usize = 0;
    while i < out.len()
        invariant
            i <= out.len(),
            out@ == old(out)@,
            ms == json::members_of(out@),
            ms.len() == out.len(),
            forall|k: int| 0 <= k < out.len() ==> #[trigger] ms[k] == (out@[k].0@, json::value_of(out@[k].1)),
            forall|k: int| 0 <= k < i ==> #[trigger] ms[k].0 != key@,
        decreases out.len() - i,
    {
        if out[i].0 == key {
            proof {
                lemma_first_index(ms, key@, i as int);
            }
            let ghost old_out = out@;
            out.set(i, (key, value));
            proof {
                json::lemma_members_of(out@);
                assert(json::members_of(out@) =~= ms.update(i as int, (old_out[i as int].0@, value@)));
            }
            return;
        }
        i = i + 1;
    }
    proof {
        lemma_first_index(ms, key@, i as int);
    }
    let m = (key, value);
    proof {
        json::lemma_members_of_push(out@, m);
    }
    out.push(m);
}

/// The document of the multi-region news tool for what came back from each
/// region's feeds (one list per region, `None` for a feed that could not be
/// fetched or read): an object with each region's items, at most `limit`
/// (3 by default) per region.
pub fn multi_region_document(input: &MultiRegionInput, bodies: &Vec<Vec<Option<String>>>) -> (r: Json)
    requires
        bodies.len() == input.regions.len(),
    ensures
        r@ == JsonValue::Object(
            region_members(input.regions@, bodies@, limit_or(input.limit, 3) as nat),
        ),
{
    let limit = limit_or_exec(input.limit, 3) as usize;
    let mut out: Vec<(String, Json)> = Vec::new();
    let mut i: usize = 0;
    assert(json::members_of(out@) =~= Seq::<(Seq<char>, JsonValue)>::empty());
    while i < bodies.len()
        invariant
            i <= bodies.len() == input.regions.len(),
            json::members_of(out@) == region_members(
                input.regions@.take(i as int),
                bodies@.take(i as int),
                limit as nat,
            ),
            limit == limit_or(input.limit, 3),
        decreases bodies.len() - i,
    {
        let items = region_items(&bodies[i], limit);
        let value = items_json(&items);
        insert_member(&mut out, input.regions[i].clone(), value);
        assert(input.regions@.take(i + 1).drop_last() =~= input.regions@.take(i as int));
        assert(bodies@.take(i + 1).drop_last() =~= bodies@.take(i as int));
        i = i + 1;
    }
    assert(input.regions@.take(bodies.len() as int) =~= input.regions@);
    assert(bodies@.take(bodies.len() as int) =~= bodies@);
    Json::Object(out)
}

/// The answer of the multi-region news tool: its document, pretty-printed.
pub fn multi_region_reply(input: &MultiRegionInput, bodies: &Vec<Vec<Option<String>>>) -> (r: String)
    requires
        bodies.len() == input.regions.len(),
    ensures
        r@ == json::pretty_json(
            JsonValue::Object(
                region_members(input.regions@, bodies@, limit_or(input.limit, 3) as nat),
            ),
        ),
{
    json::to_pretty(&multi_region_document(input, bodies))
}

} // verus!
