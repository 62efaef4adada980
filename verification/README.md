# novel-boom

A terminal novel downloader driven by so-novel style book-source rules
(JSON packs) and a TOML configuration.

The library (`src/`) is written in Verus: every function carries a
`requires`/`ensures` contract that Verus proves (apart from the trusted
items below), and the laws the program relies on are stated as proof
functions next to the code they are about.

| Module | What it holds |
|--------|---------------|
| `config` | settings, defaults, validation, config-path choice, load outcome |
| `rule`, `catalog` | source rules, their effective defaults, the loaded pack and its ids |
| `query`, `select`, `dom` | rule queries (`@href`, `@js:`, XPath detection), CSS selection, field extraction |
| `form_data` | `{key: %s}` search form templates |
| `search`, `book`, `toc` | request planning and page parsing for search, detail and table of contents |
| `model`, `service` | books, chapters, hits, chapter ranges and the use-case checks around them |
| `net` | request headers, retry policy, failure messages |
| `tui`, `panel`, `report` | interface state machine, page texts and command-line reports |
| `text`, `support`, `error` | string specifications and helpers, unsupported-feature checks, errors |

HTML parsing, CSS matching, URL resolution, regular expressions and
percent-encoding are done by `scraper`, `url`, `regex` and
`percent-encoding`; the library reaches them only through the trusted
declarations in `dom.rs`, whose contracts state or name what those crates
return. The character collector in `text.rs` is trusted the same way. The
three `std::path` helpers in `catalog.rs` (absolute-path test, parent,
join) carry no contract, since their results follow the target platform's
path rules; the rules-pack lookup is stated over whatever they return.

`app/` is the program around the library: command-line arguments, reading
files, TOML and JSON decoding, HTTP transfers with `reqwest`, the async
loops that fetch the pages the library asks for, and drawing with
`ratatui`.
