# aise

The planning, prompt-assembly and persistence rules of an interactive
fiction engine, written in Verus with their contracts proved.

- `src/planning` — the writer planner stage: validating the planner's
  structured output, projecting the prompt context, building the retrieval
  plan (deduplicated and ordered requests, audience rules, narrative
  impulses merged into think requests).
- `src/prompt` — prompt catalogs: slot registry, packs and their
  inheritance, asset sections of templates, content hashes, the catalog
  compiler and its pack checks, policies, profiles, composition of the three
  prompt layers, what a slot renders from and what a render reports, the
  views rendered into prompts, and the messages of the planner, character
  and writer model calls.
- `src/persistence` — the decisions the stores make around their queries:
  error codes and statuses, knowledge filters, stored names read back,
  snapshot and activation-index limits and assembly, the checks of a turn
  commit (with its narrative transitions) and its gate, knowledge
  mutations, the rows of a new story, history paging, and model usage
  totals.
- `src/turn.rs`, `src/domain.rs` — the turn and domain types the rest reads.
- `app/` — file reading, YAML/JSON decoding, the template engine, the JSON
  schema of the planner output, the store's reads and database error
  mapping.
