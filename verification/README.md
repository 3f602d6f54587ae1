# presguel

Verified core of a Nalgaeset-style Korean (Sebeolsik) input method for IBus.

- `src/jamo.rs` — Hangul jamo tables, the precomposed-syllable formula,
  composition and decomposition, with round-trip laws.
- `src/unit.rs` — units of `H3|<operand>`: mnemonics, numeric operands,
  compatibility jamo, initial/final conversion.
- `src/text.rs` — character-level trimming, comparison, `u32` parsing and digit
  strings.
- `src/addr.rs` — interpretation of the IBus bus address file and display names.
- `src/engine.rs` — classification and routing of key events, Hangul/Latin mode.
- `src/ibus_text.rs` — preedit attributes.
- `app/` — environment and file access, D-Bus serialisation and the
  `org.freedesktop.IBus.Engine` interface (zbus).
