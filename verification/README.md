# mcp_news

A news-gathering MCP server whose decisions are verified with Verus.

- `src/` is the verified library:
  - `text`: character-level operations (search, trimming, CDATA marker removal,
    space encoding, decimal numbers);
  - `markup`: the text of an XML element and the removal of HTML tags;
  - `rss`: reading the items of an RSS feed;
  - `regions`: the RSS feeds of each region and the GNews country codes;
  - `json`: JSON documents, their reading and pretty-printing (serde_json),
    and the reshaping of the services' article lists;
  - `tools`: the tool inputs, the request each tool makes, and its answer to
    what came back.
- `app/` is the server itself: it reads the configuration, performs the HTTP
  requests the library plans and hands what came back to the library.
- `tests/` runs the library on concrete inputs.
