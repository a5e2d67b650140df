# Novel Studio AI — verified core

The logic of a desktop IDE for writing Japanese novels with optional AI
assistance, written in Verus: each public function states its behaviour in
`requires`/`ensures`, and the library's laws are public proof functions
(`law_*`).

- `src/` — the verified library (text utilities, readability counts, the
  TXT/Markdown/HTML/DOCX/EPUB exports, AI prompts, context assembly,
  provider requests and replies, API-key storage, backups, migrations).
- `tests/` — tests run against the compiled library.
- `app/` — the unverified shell around it: the SQLite file and its
  backups, the `curl` process, JSON bodies, the PDF renderer, and the
  floating-point statistics.
