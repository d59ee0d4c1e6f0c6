# cerium

A lexer, a parser and the first pieces of code generation for the Cerium language,
verified with Verus.

- `lexer`: turns source text into tokens; `lex_step` states what one call of `next`
  or `next_signed` returns, and `token_stream` the whole sequence of tokens.
- `parser`: turns the tokens into a syntax tree; `parser::grammar` states the grammar
  as spec functions over the token stream, and `Parser::parse` returns what `program`
  gives.
- `compiler`: where the values of a function live (`vars`), the assembly that code
  generation produces (`assembly`), the code of expressions (`compile`), and what a
  program declares (`declarations`).
- `error`: the errors, and their reports: the source lines concerned, with the part
  at fault marked, in colour where the terminal allows it (`colored`).

The lexer counts positions in characters; the reports count them in bytes of the UTF-8
text, as `str::len` does. `app/main.rs` lexes a sample program and
prints its tokens and the reports of its errors.
