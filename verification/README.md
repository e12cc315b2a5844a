# zodlang

A compiler for ZodLang, a small imperative language, to x86_64 NASM assembly,
written as a Verus library with its contracts proved.

- `src/lex.rs`: the lexer (bytes to tokens, keyword and literal recognition).
- `src/grammar.rs`, `src/parse.rs`: the recursive-descent parser and the parse tree.
- `src/types.rs`: the type checker, which fills in the type of every node.
- `src/represent.rs`, `src/irgen.rs`: the intermediate representation and its
  generation from a checked tree.
- `src/optimise.rs`: the peephole optimiser.
- `src/asmgen.rs`: the assembly text of an IR.
- `src/preprocess.rs`: splicing of included files into the token stream.
- `src/names.rs`, `src/text.rs`, `src/error.rs`: name tables, decimal text and errors.
- `app/main.rs`: the `zodc` driver: arguments, files, `nasm`/`ld`, and the dumps.
