# tessera

Tessera's retrieval, parsing and event logic, written in Verus and proved
against its contracts.

- `src/` is the verified library: chunking and the passage cap, the file
  format detection and the parsers (Markdown, HTML, plain text, docx, the
  text layer of a pdf, workbook bands), the hybrid index's content address and
  lexical query, doctrine's trust ranks, web discovery, the event vocabulary
  and provenance, the projection of events onto cards and runs, and the rules
  the store applies when it records retrievals, flags and concepts. Calls into
  outside crates (pulldown-cmark, scraper, quick-xml, zip, sha2, serde_json)
  sit behind small trusted wrappers whose contracts are stated next to them.
  Hex encoding is written and proved in `src/digest.rs`.
- The schema guard's own rules (every schema names its `$id`, no two claim
  the same one, an instance is valid exactly when it has no violations) are in
  `src/schema.rs`. Compiling and running the JSON schemas themselves is not
  here: the schema files and the validator they need are not part of this
  tree.
- `app/` is ordinary Rust around the library: SQLite through rusqlite, the
  blob files, HTTP through ureq, pdf text extraction, workbook reading, and
  the parts that rest on floating point (embedding similarity, BM25, the
  mastery model).
- `tests/` exercises the library from outside.
