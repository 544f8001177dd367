# brinsfield_silence_simulation

An agent-based model of employee silence after Brinsfield (2013): six
silence motives (ineffectual, relational, defensive, diffident, disengaged,
deviant) carried as a per-employee probability simplex on an organisational
social network, with a rule-based decision mode (6-, 4- and 3-motive
ablations) and an LLM decision mode.

Layout:

- `src/` — the library, verified with Verus: motive labels and their order,
  decision-mode and network parsers, calibration anchors (held exactly in
  basis points), the discrete mechanism rules (motive collapse carriers,
  knowledge drain, decision-mechanism wiring), the counts behind the metrics,
  the voice-decision prompt, and the reading of LLM replies (JSON-object
  extraction, decoding with serde_json behind one trusted wrapper, decision
  words, the verdict and its fallback). Public proof
  functions (`lemma_*`) state the library's laws.
- `tests/` — tests of the library.
- `app/` — the command-line program and the floating-point simulation
  (motive simplex arithmetic, mechanisms run by the socsim engine, metrics,
  prompt formatting, CSV/JSON output), built on the library.
