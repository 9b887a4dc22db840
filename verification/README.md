# VolentScript

A compiler for an ActionScript-like language, from text to native code. The
library holds everything between reading the source files and driving LLVM, and
its functions are proved against their contracts with Verus. A few small wrappers
of std functions are trusted instead: each says in its doc comment what it claims
of the function it calls.

## Layout

- `src/lexer`, `src/parser`, `src/ast`: text to tokens to syntax tree, and the
  tree's dump.
- `src/sema.rs`: the typed tree that the type checker hands over.
- `src/lower`, `src/mir.rs`: lowering to the mid-level representation.
- `src/bce`: bounds-check elimination by loop versioning.
- `src/codegen`: the commands from which the LLVM module is built.
- `src/driver.rs`, `src/render.rs`, `src/diagnostics.rs`: options, linker
  command, diagnostics.
- `tests`: tests of the library.
- `app`: the command line, files and processes, and the replay of the commands
  into LLVM.

## Where to start reading

Each stage states its result in spec functions: `lexed` tokens, the `grammar`
of the parser, the `rules` of lowering, what `rewritten` means for a loop, and
the code that the `codegen` spec functions build. What holds of a stage as a
whole stands in its `laws` module as public proof functions named `law_..`.
