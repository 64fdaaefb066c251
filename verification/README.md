# starmap

Generates Awesome Lists from your GitHub Stars, organized by GitHub Lists,
plus llmstxt.org-style companions (`llms.txt`, `llms-full.md`).

Layout:

- `src/` — the verified library (Verus). Every generator states, as a spec
  function over the views of its inputs, the exact text it produces:
  - `markdown` — the Awesome List (Focus legend, table of contents, one
    section per list in the configured order, inline Focus tags,
    "Uncategorized" for stars in no list) and GitHub anchors;
  - `llms_txt` — the index, with the configured list order (`apply_order`);
  - `llms_full` — the full archive with README texts capped per repository;
  - `readme` — UTF-8-safe truncation, README payload decoding, retry decisions;
  - `backoff` — rate-limit statuses, exponential backoff, `Retry-After` parsing;
  - `client`, `paging` — GraphQL query texts, response checks, token choice,
    and the pagination state machines;
  - `types`, `config`, `sorting`, `text` — domain types, settings, the stable
    case-insensitive sort, and text primitives.
- `app/` — the command line: HTTP, files, environment, serde/TOML decoding.
- `tests/` — tests of the library.
