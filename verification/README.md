# markdown_constructs

Directive (`:text`, `::leaf`, `:::container`) and wiki-link (`[[target#fragment|alias]]`,
`![[embed]]`) constructs of a markdown tokenizer, with the serializer that writes wiki
nodes back to markdown, verified with Verus.

Layout of `src/`:

- `tokenizer.rs`, `event.rs`, `state.rs`: the tokenizer the constructs run on, the events
  they emit, and the states they return. `TokenizerView` is the mathematical model.
- `construct/`: the state functions of each construct. Each one's contract is one exact
  step of the machine (`*_step` spec functions).
- `machine.rs`: the machine that calls states and settles attempts (`feed`), its spec
  (`run`), the invariant it keeps, and why it terminates.
- `character.rs`: classification of the character at a byte index (whitespace,
  punctuation, other).
- `directive_syntax.rs`, `directive_laws.rs`: the syntax the directive sub-parsers and
  constructs recognize, stated over bytes, with the proofs that they recognize exactly it.
- `wiki_syntax.rs`: the wiki syntax over bytes, the proof that the construct recognizes
  exactly it, and `parse_wiki`.
- `to_markdown.rs`: validation and serialization of wiki nodes, with their diagnostics.
- `wiki_laws.rs`: round trips between serializing and parsing wiki nodes.
