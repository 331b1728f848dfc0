# knowledge_base

A local-first personal knowledge base: folders are scanned, their documents (Markdown, text,
PDF, Word, Excel, images) are turned into knowledge blocks, and questions are answered from
those blocks with their sources named.

The rules of the knowledge base live in `src/` and are verified with Verus: every public
function states in `requires`/`ensures` what it returns, and the properties that span
several functions are stated and proved as `law_*` proof functions.

## Layout

- `src/text.rs`, `xml.rs`, `pdf.rs`, `sheet.rs` — text normalisation, XML, PDF literal strings
  and worksheet reading on character sequences.
- `src/parser.rs`, `archive.rs` — parsing a file's bytes by kind; `archive.rs` holds the calls
  into the `zip` crate (with names for what they return).
- `src/chunking.rs`, `locator.rs`, `search.rs` — knowledge-block chunking, source locators,
  search terms, excerpts and the ranking of hits.
- `src/agent.rs` — the context given to the chat model, the local answer, retries.
- `src/scanner.rs`, `reconcile.rs` — which folder entries are scanned, the scan limits,
  content hashing (BLAKE3) and how a scan updates the recorded files.
- `src/jobs.rs`, `ocr.rs`, `vision.rs`, `sidecar.rs` — the parse-job state machine and
  queue, OCR requests and documents, embedded Word images, and the sidecar protocol.
- `src/workbench.rs`, `runtime.rs`, `settings.rs`, `backup.rs`, `restore.rs`, `vector.rs`,
  `models.rs`, `error.rs` — the session state, configuration lookup, backup export and the
  guarded restore, and the shared types.
- `tests/` — tests run against the compiled library.
- `app/` — a command-line front end: SQLite storage, folder walking, running the Python
  sidecars and the DeepSeek chat call. It holds I/O only and asks the library for every
  decision.
