# rustling

A digest agent: it collects items from RSS/Atom feeds, SearXNG searches and
MCP tools, keeps those that match the configured keywords, stores them in
SQLite, has an LLM summarize the new ones and mails the digest through
SendGrid.

## Layout

- `src/` — the library, verified with Verus:
  - `text.rs`: trimming, splitting, substring search, decimal rendering, joining;
  - `time.rs`: UTC timestamps and the chrono calls made on them;
  - `json.rs`: JSON values as the library reads them;
  - `config.rs`: configuration types, defaults, keyword lists;
  - `models.rs`: items and digests;
  - `source/`: how feed bodies, search results and MCP tool answers become items,
    and which feed bodies feed-rs's parser is known to return on;
  - `llm.rs`: the prompt, the request to each provider, the summary in the reply;
  - `email.rs`: the digest mail and SendGrid's answer;
  - `store.rs`: what is written to and read back from the database;
  - `pipeline.rs`: the keyword filter, the digest's item ids, and the run's
    sequence of steps, which mails again the digests earlier runs left unsent.
- `app/` — the program: configuration file and environment, SQLite, HTTP,
  MCP sessions, and the loop that performs each step the library asks for.
- `tests/` — tests of the library on concrete values.
