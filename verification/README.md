# rhai_tokenizer

The tokenizer of the Rhai scripting language, written in Verus: every function of the library
carries a contract, and Verus proves each body against it, except for a few small wrappers
around outside calls whose contracts are trusted (`String::push`, `String::push_str`,
`String::len` and `char::from_u32`).  Identifiers are made of ASCII letters, digits and `_`.

Layout of `src/`:

- `position.rs`: line and column positions.
- `token.rs`, `error.rs`: tokens and lexing errors, with their models and texts.
- `keywords.rs`: keywords, symbols and reserved words.
- `chars.rs`, `text.rs`, `numbers.rs`: character classes, text helpers, number syntax.
- `stream.rs`, `state.rs`: the character stream and the tokenizer state.
- `strings.rs`: string, character and raw string literals.
- `lexer.rs`, `identifiers.rs`: symbols, numbers, comments, identifiers.
- `tokenize.rs`: the model of reading one token (`next_token`) and `get_next_token`.
- `engine.rs`: engine settings (custom and disabled keywords) and the token iterator.
- `laws.rs`: properties that span several functions.

`app/` holds what rests on floating point (the values of floating-point constants).
