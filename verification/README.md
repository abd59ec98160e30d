# bms_table

A verified library for BMS difficulty tables.

- `src/model.rs`: the table model (header, course tree, courses, charts,
  trophies, table lists) with constructors, course flattening, chart merging
  and level lookup.
- `src/de.rs`: conversion of JSON `level` and `level_order` values.
- `src/html.rs`: locating the header JSON URL in `<meta name="bmstable">`
  from the `htmlparser` token stream.
- `src/fetch.rs`: control-character cleaning, header JSON discovery in an HTML
  page (via `scraper`), and the JSON/HTML fallback strategies.
- `src/fetch/fetcher.rs`: the `reqwest` client handle and the step function
  that decides, from each fetched text, what to fetch next.
- `src/text.rs`: character-level helpers.
- `app/`: serde forms of the model, error messages, and the HTTP requests.

The contracts are stated over the views of these types and proved with Verus.
