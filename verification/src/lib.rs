//! Verified core of a news-gathering MCP server: query and URL construction
//! for the GDELT, NewsAPI and GNews services, RSS item extraction, HTML
//! stripping, region and country tables, and the shaping of the answers.

pub mod text;
pub mod markup;
pub mod rss;
pub mod regions;
pub mod json;
pub mod tools;

pub use markup::{extract_tag, strip_html};
pub use regions::{country_to_gnews_code, get_rss_urls};
pub use rss::{parse_rss_items, RssItem};
pub use json::{format_articles, format_gnews, format_newsapi, Json};
pub use tools::{
    CountryNewsInput, FetchOutcome, MultiRegionInput, NewsApiInput, Plan, RssFeedInput,
    SearchInput, Shape, TimelineInput, TrendingInput,
};
