# accounting_engine

A fail-closed neuro-symbolic engine for Czech accounting questions. A question is routed
to a topic module, a language model maps it onto the topic's fixed slot vocabulary, an ASP
solver decides it against the module's rules, and a single gate turns the solver's verdict
into a cited answer or an abstention. Expert corrections feed a learning loop: a
`fact_mapping` correction is distilled into a lesson, checked by a verification gate
against the gold set, kept provisional until a human approves it, and only then retrieved
into extraction.

## Layout

- `src/` — the verified library (Verus): text primitives, the enum-fenced slot parser and
  fact builder, the solver front end (program assembly, verdict from shown atoms), the
  gate, gold-set correctness, the learning loop's decisions (distillation, the
  verification gate, correction routing, approval), retrieval ranking, routing, the call
  budget and the model CLI's argument list and failure handling. JSON objects are read with
  `serde_json` behind one trusted function (`json::parse_object_members`).
- `app/` — the host: spawning the model CLI, running clingo, reading topic modules and gold
  sets from disk, the SQLite store, the review-queue file, the spend half of the budget
  (a float) and the async pipeline that strings the library's decisions together.
- `tests/` — tests of the library.
