# tp_parseur_io

Reading `key=value` configuration text, sources of text behind a common
trait, and a small table of processes, written in Verus: each public
function states what it returns in `requires`/`ensures`, and Verus proves it.

Layout:

- `src/` — the verified library.
  - `texte` — text on the character view of strings: trimming, cutting at a
    character, lines, words, decimal writing, joining.
  - `table` — a map from strings to strings kept sorted by key.
  - `regles` — the cut of a `key=value` line shared by the parsers.
  - `ini`, `strict`, `sans_doublon`, `config`, `generique`, `kv` — the
    parsers, each with its own rules on blank lines, comments, repeated and
    empty keys, and its own errors.
  - `processus` — the process table.
  - `lecteurs`, `sources`, `lecture_simple`, `lecture_tolerante`, `blocs`,
    `es` — sources of text and the decisions around reading them.
  - `syswatch`, `calculatrice` — the decisions of a monitoring server and of a
    calculator.
- `tests/` — tests run against the compiled library.
- `app/` — the programs: files, standard input, network, printing, and the
  computations on floating point.
