# sqlparser_nom

A SQL query parser verified with Verus: a tokenizer, Pratt parsers for
expressions and joins, recursive descent for the rest of a query, and a printer
that writes trees back as SQL text.

Layout of `src/`:

- `parser/lexer.rs`: the lexical rules as spec functions over bytes, the
  executable recognizers proved against them, and the laws of the lexer
  (keywords ignore ASCII case; tokens come in order and do not overlap).
- `parser/token.rs`: tokens, their text, and the `Tokenizer`.
- `parser/grammar.rs`: the grammar of queries as spec functions over the
  lexemes of the tokens (kind, text of non-keywords, text inside quotes, value of
  integers), the error texts of failed parses, and the grouping laws of the two
  Pratt parsers.
- `parser/reads.rs`: which parses read an integer literal too large for `usize`;
  the parsers require only that theirs does not.
- `parser/expr.rs`, `set_expr.rs`, `statement.rs`, `table_ref.rs`: the parsers,
  each proved to give exactly what the grammar gives.
- `parser/common.rs`, `parser/error.rs`: shared pieces and the parse error.
- `ast/`: the syntax tree, a mathematical model of every node, and the printers
  (`ast/display.rs`), each proved to build the text its spec function gives.
- `lib.rs`: `parse_query`, from SQL text to a query; `try_parse_query`, which
  checks its preconditions first; and the law that the case of keywords does not
  matter.
