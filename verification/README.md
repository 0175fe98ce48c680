# annas_mcp

A client for Anna's Archive, verified with Verus: it reads search result
pages, SciDB and Sci-Hub pages and Elasticsearch records, discovers and
ranks mirrors from the SLUM status page, finds download links on partner
mirrors, names downloaded files safely, and makes the decisions of an MCP
server and a command line.

## Layout

- `src/` — the verified library.
  - `text.rs` — string operations with their specifications.
  - `html.rs`, `json.rs`, `pattern.rs` — the document model of `scraper`,
    the value queries of `serde_json` and the matches of `regex`, each
    behind a small trusted wrapper.
  - `client/` — search page and record parsing, and the client's
    addresses and answers.
  - `mirror/` — mirror scores, ranking (with its proved properties) and
    the choice of a mirror.
  - `downloader/` — file names and paths, partner mirror links.
  - `mcp/` — tool descriptions, dispatch and answers; request routing.
  - `cli.rs`, `config.rs`, `errors.rs`, `domain/` — commands, settings,
    errors, books and papers.
- `tests/` — tests of the library.
- `app/` — the program: network and file work, the MCP server loop and the
  command line, calling the library for every decision.
