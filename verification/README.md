# chartlet

Accessible, deterministic charts and QR codes as SVG. Verus proves the
checking of chart specifications, their generated descriptions, the SVG
and HTML markup (tooltips, series filter, zoom steps, data table) around
the placed marks, where lines break, and the whole QR encoder. Placing the
marks takes binary64 arithmetic and is ordinary, unverified code in
`app/`.

## Layout

- `src/` — the verified library.
  - `spec` — the chart specification; values are held as binary64 bit
    patterns so that they can be checked and compared exactly.
  - `validate` — every check of a specification, in order, with the law
    that a specification that passes stays within the documented limits.
  - `describe` — the generated description: highest and lowest values in
    the order of `f64::total_cmp`, where they occur, missing values.
  - `render` — the SVG document and the HTML figure with its series filter,
    zoom variants and data table; escaping, and the laws that the figure
    holds every value and every control.
  - `layout` — bar classes, tooltips, which values get bars, where the
    lines of a line chart break, and the warnings about layout compromises.
  - `ids` — the accessibility id prefix: checked when given, derived from
    the FNV-1a hash of the canonical JSON otherwise.
  - `cli` — the command line, read into a request.
  - `lib.rs` — `prepare` (the checks before layout, which do not depend
    on the format) and `finish` (SVG or HTML from the placed marks).
  - `qr` — QR codes: byte mode, versions 1 to 40, four error correction
    levels, the mask with the lowest penalty.
- `app/` — the `chartlet` program: parsing JSON, the layout (which measures
  and places with binary64 arithmetic), files and standard streams.
- `tests/` — tests of the library.
