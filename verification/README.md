# declart-core

Declarations of prose diagrams (flows, tiers, hierarchies, matrices, hub-and-spoke, Venn,
timelines, comparisons and state diagrams), read from TOML or JSON text, checked against the
schema and the rules of their kind, and drawn as SVG.

- `src/` is the library, verified with Verus: the document tree read by `toml` and
  `serde_json` (`doc`), the schema of each kind (`raw`), the rules of each kind (`kinds`,
  `hierarchy`, `matrix`, `timeline`, `comparison`, `state`, `rules`), reading a declaration
  (`parse`), the model (`model`), errors (`error`), theme colors and names (`color`,
  `themes`), what the drawings are handed (`convert`, `tree`), escaping (`markup`), starter
  declarations (`templates`), Markdown chapters with diagram blocks (`book`), the choices
  of the command line (`cli`), the properties of the whole (`laws`), and what each kind
  refuses and what an accepted declaration becomes (`kind_laws`, `matrix_laws`).
- `app/` is the command line, the mdBook preprocessor, the C and WebAssembly entry points,
  and the drawings themselves, which compute in floating point.
- `tests/` exercises the library.
