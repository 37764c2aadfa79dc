# twig

Lexing and parsing of Twig templates, verified with Verus.

- `src/lexer`: the lexer. `iter.rs` states what the lexer produces as a
  functional model (`lex_all`) and runs an executable scanner proved equal
  to it; `matchers.rs` holds the scanners of the lexical grammar (names,
  numbers, strings, operators, tag delimiters); `numbers.rs` decides when a
  decimal literal is too large for a double.
- `src/nodes`: the parser. `grammar.rs` states the expression grammar as
  functions from a position in the token stream to the parsed value and the
  next position; `expr_parser.rs` and `module.rs` parse by precedence
  climbing and are proved to follow it; `context.rs` is the parser's state
  and the scopes of imported functions.
- `src/environment`, `src/extension`, `src/operator.rs`: operators and tag
  parsers, and the core extension that provides them.
- `src/error.rs`, `src/error/`: errors and their messages.
- `app/main.rs`: prints the tokens of a template file.
