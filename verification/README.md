# egui_commonmark

A CommonMark viewer for egui whose decisions are verified with Verus.

- `src/` is the verified library: search-match collection and highlighting
  (`matches`, `search`), the cache that holds the search state, link hooks
  and scroll requests (`misc`), the renderer's event-by-event state machine
  (`render`), the pieces it gathers (`blocks`), lists and line breaks
  (`elements`), parsing with `pulldown_cmark` and grouping of events into
  tables, block quotes and list items (`pulldown`, `table`), alerts (`alerts`), options (`options`), image
  sources (`fetch_data`, `data_url`), and properties that span several
  operations (`laws`).
- `app/` is the egui front end: it has the library parse the text and say
  what each event means, and draws the widgets.
- `tests/` exercises the library on concrete documents and states.

The original's optional features are not carried over: `fetch` (images
over HTTP with `ehttp`; without it every image uri is read as a file, which
is what this crate does), `better_syntax_highlighting` (`syntect`), `svg`
(`resvg`/`usvg`) and `macros`, nor the experimental `comrak` backend. Their
crates are not available here.
